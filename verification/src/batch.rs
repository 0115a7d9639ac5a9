//! Task batch arguments: message snapshots with their media, batch
//! operations, and the mutation plan that a batch of operations asks for.
use vstd::prelude::*;

use crate::chars::{chars_of, string_of};
use crate::decimal::{decimal_digits, to_decimal_u128};
use crate::order::{chars_less, lemma_seq_less_total, lemma_seq_less_transitive, seq_less};
use crate::order::str_views;
use crate::paths::{chars_eq, chars_is};
use crate::hashing::{hex_lower, sha256};
use crate::materials::{update_digest_input, workspace_update_request_id};
use crate::text::{push_chars, trim_ws};
use crate::vocab::{
    media_kind_name, msg_bad_media_kind, msg_bad_relation, msg_bad_status, msg_bad_urgency,
    parse_source_media_kind, parse_status, parse_task_relation_kind, parse_urgency, relation_name,
    status_name, urgency_name, SourceMediaKind, TaskRelationKind, TaskStatus, Urgency,
};

verus! {

/// A media attachment as a tool call names it.
pub struct SourceMediaArgs {
    pub kind: String,
    pub file_name: String,
    pub provider_file_id: Option<i32>,
    pub mime_type: Option<String>,
    pub size: Option<u64>,
    pub relative_path: Option<String>,
}

/// A media attachment of a message.
pub struct SourceMedia {
    pub kind: SourceMediaKind,
    pub file_name: String,
    pub provider_file_id: Option<i32>,
    pub mime_type: Option<String>,
    pub size: Option<u64>,
    pub relative_path: Option<String>,
}

/// Whether `name` names a media kind.
pub open spec fn media_kind_known(name: Seq<char>) -> bool {
    exists|k: SourceMediaKind| #[trigger] media_kind_name(k) == name
}

/// `m` carries the fields of `a`, with the kind that `a` names.
pub open spec fn media_matches(m: SourceMedia, a: SourceMediaArgs) -> bool {
    &&& media_kind_name(m.kind) == a.kind@
    &&& m.file_name == a.file_name
    &&& m.provider_file_id == a.provider_file_id
    &&& m.mime_type == a.mime_type
    &&& m.size == a.size
    &&& m.relative_path == a.relative_path
}

/// The media attachment that `value` describes, or the error that lists the
/// media kinds.
pub fn parse_source_media(value: SourceMediaArgs) -> (r: Result<SourceMedia, String>)
    ensures
        match r {
            Ok(m) => media_matches(m, value),
            Err(e) => e@ == msg_bad_media_kind() && !media_kind_known(value.kind@),
        },
{
    let SourceMediaArgs { kind, file_name, provider_file_id, mime_type, size, relative_path } = value;
    match parse_source_media_kind(kind.as_str()) {
        Ok(k) => Ok(SourceMedia { kind: k, file_name, provider_file_id, mime_type, size, relative_path }),
        Err(e) => Err(e),
    }
}

/// A message as a tool call quotes it: the source of a task.
pub struct SnapshotArgs {
    pub text: String,
    pub author: Option<String>,
    pub sent_at: Option<String>,
    pub url: Option<String>,
    pub provider: Option<String>,
    pub chat_id: Option<i64>,
    pub chat_title: Option<String>,
    pub message_id: Option<i64>,
    pub message_ids: Vec<i64>,
    pub media: Vec<SourceMediaArgs>,
}

/// A quoted message; `sent_at` holds the instant as seconds since the Unix
/// epoch and the nanoseconds within that second.
pub struct MessageSnapshot {
    pub text: String,
    pub author: Option<String>,
    pub sent_at: Option<(i64, u32)>,
    pub url: Option<String>,
    pub provider: Option<String>,
    pub chat_id: Option<i64>,
    pub chat_title: Option<String>,
    pub message_id: Option<i64>,
    pub message_ids: Vec<i64>,
    pub media: Vec<SourceMedia>,
}

/// The instant that chrono reads from `text` as a `DateTime<Utc>` (a relaxed
/// RFC 3339: date, `T` or a space, time, offset), as seconds since the epoch
/// and nanoseconds; `None` where chrono refuses the text.
pub uninterp spec fn chrono_utc_instant(text: Seq<char>) -> Option<(i64, u32)>;

/// Calls chrono's `FromStr` for `DateTime<Utc>` and takes `timestamp()` and
/// `timestamp_subsec_nanos()` of what it read. Claimed: the result is
/// `chrono_utc_instant` of the text; nothing more is said of that name.
#[verifier::external_body]
fn parse_utc_instant(text: &str) -> (r: Option<(i64, u32)>)
    ensures
        r == chrono_utc_instant(text@),
{
    match text.parse::<chrono::DateTime<chrono::Utc>>() {
        Ok(t) => Some((t.timestamp(), t.timestamp_subsec_nanos())),
        Err(_) => None,
    }
}

pub open spec fn msg_bad_sent_at() -> Seq<char> {
    "sent_at должен быть в формате RFC 3339"@
}

/// Whether every media attachment of `a` names a known kind.
pub open spec fn media_kinds_known(a: Seq<SourceMediaArgs>) -> bool {
    forall|i: int| 0 <= i < a.len() ==> media_kind_known(#[trigger] a[i].kind@)
}

/// `s` carries the fields of `a`, with `sent_at` read as `instant` and each
/// media attachment parsed.
pub open spec fn snapshot_matches_at(s: MessageSnapshot, a: SnapshotArgs, instant: Option<(i64, u32)>) -> bool {
    &&& s.text == a.text
    &&& s.author == a.author
    &&& s.sent_at == instant
    &&& s.url == a.url
    &&& s.provider == a.provider
    &&& s.chat_id == a.chat_id
    &&& s.chat_title == a.chat_title
    &&& s.message_id == a.message_id
    &&& s.message_ids@ == a.message_ids@
    &&& s.media@.len() == a.media@.len()
    &&& forall|i: int| 0 <= i < a.media@.len() ==> media_matches(#[trigger] s.media@[i], a.media@[i])
}

/// The error of a snapshot whose time of sending was read as `instant`
/// (`None` when it could not be read), if any.
pub open spec fn snapshot_error_at(a: SnapshotArgs, instant: Option<(i64, u32)>) -> Option<Seq<char>> {
    if a.sent_at is Some && instant is None {
        Some(msg_bad_sent_at())
    } else if !media_kinds_known(a.media@) {
        Some(msg_bad_media_kind())
    } else {
        None
    }
}

/// How chrono reads the time of sending of `a`.
pub open spec fn sent_at_instant(a: SnapshotArgs) -> Option<(i64, u32)> {
    match a.sent_at {
        Some(t) => chrono_utc_instant(t@),
        None => None,
    }
}

pub open spec fn snapshot_matches(s: MessageSnapshot, a: SnapshotArgs) -> bool {
    snapshot_matches_at(s, a, sent_at_instant(a))
}

pub open spec fn snapshot_error(a: SnapshotArgs) -> Option<Seq<char>> {
    snapshot_error_at(a, sent_at_instant(a))
}

/// The parsed media attachments of `media`, or the error of the first one
/// whose kind is unknown.
fn parse_media_list(media: Vec<SourceMediaArgs>) -> (r: Result<Vec<SourceMedia>, String>)
    ensures
        match r {
            Ok(ms) => media_kinds_known(media@) && ms@.len() == media@.len()
                && forall|i: int| 0 <= i < media@.len() ==> media_matches(#[trigger] ms@[i], media@[i]),
            Err(e) => e@ == msg_bad_media_kind() && !media_kinds_known(media@),
        },
{
    let ghost orig = media@;
    let mut rest = media;
    let mut out: Vec<SourceMedia> = Vec::new();
    while rest.len() > 0
        invariant
            orig == media@,
            out@.len() + rest@.len() == orig.len(),
            rest@ == orig.skip(out@.len() as int),
            forall|i: int| 0 <= i < out@.len() ==> media_matches(#[trigger] out@[i], orig[i]),
        decreases rest.len(),
    {
        let ghost k = out@.len() as int;
        let a = rest.remove(0);
        assert(a == orig[k]);
        match parse_source_media(a) {
            Ok(m) => {
                out.push(m);
                assert(rest@ == orig.skip(k + 1));
            },
            Err(e) => {
                assert(!media_kind_known(orig[k].kind@));
                assert(!media_kinds_known(orig));
                return Err(e);
            },
        }
    }
    assert forall|i: int| 0 <= i < orig.len() implies media_kind_known(#[trigger] orig[i].kind@) by {
        assert(media_matches(out@[i], orig[i]));
    }
    Ok(out)
}

/// The snapshot that `value` describes, its time of sending read as
/// `instant`: the error of an unreadable time comes first, then that of an
/// unknown media kind.
pub fn snapshot_with_instant(value: SnapshotArgs, instant: Option<(i64, u32)>) -> (r: Result<MessageSnapshot, String>)
    ensures
        match r {
            Ok(s) => snapshot_error_at(value, instant) is None
                && snapshot_matches_at(s, value, if value.sent_at is Some { instant } else { None }),
            Err(e) => snapshot_error_at(value, instant) == Some(e@),
        },
{
    let SnapshotArgs { text, author, sent_at, url, provider, chat_id, chat_title, message_id, message_ids, media } = value;
    let at = match sent_at {
        Some(_) => match instant {
            Some(t) => Some(t),
            None => {
                return Err(String::from_str("sent_at должен быть в формате RFC 3339"));
            },
        },
        None => None,
    };
    match parse_media_list(media) {
        Ok(ms) => Ok(MessageSnapshot {
            text,
            author,
            sent_at: at,
            url,
            provider,
            chat_id,
            chat_title,
            message_id,
            message_ids,
            media: ms,
        }),
        Err(e) => Err(e),
    }
}

/// The snapshot that `value` describes, its time of sending read by chrono.
pub fn parse_snapshot(value: SnapshotArgs) -> (r: Result<MessageSnapshot, String>)
    ensures
        match r {
            Ok(s) => snapshot_error(value) is None && snapshot_matches(s, value),
            Err(e) => snapshot_error(value) == Some(e@),
        },
{
    let instant = match &value.sent_at {
        Some(t) => parse_utc_instant(t.as_str()),
        None => None,
    };
    snapshot_with_instant(value, instant)
}

/// The decimal notation of a signed number.
pub open spec fn signed_decimal(n: int) -> Seq<char> {
    if n < 0 {
        seq!['-'] + decimal_digits((-n) as nat)
    } else {
        decimal_digits(n as nat)
    }
}

fn to_decimal_i64(n: i64) -> (r: Vec<char>)
    ensures
        r@ == signed_decimal(n as int),
{
    if n < 0 {
        let m: i128 = n as i128;
        let mut v: Vec<char> = vec!['-'];
        let digits = to_decimal_u128((0 - m) as u128);
        push_chars(&mut v, &digits);
        v
    } else {
        to_decimal_u128(n as u128)
    }
}

/// A message that a plan names as its source.
pub struct SourceRef {
    pub kind: String,
    pub id: String,
}

pub open spec fn source_kind_for(provider: Option<String>) -> Seq<char> {
    match provider {
        Some(p) => if p@ == "telegram"@ {
            "telegram_message"@
        } else if p@ == "github"@ {
            "github_message"@
        } else {
            "message"@
        },
        None => "message"@,
    }
}

/// The source that a snapshot names: a message of its provider, as
/// `chat:message` where the chat is known; none without a message id.
pub open spec fn spec_snapshot_source(s: MessageSnapshot) -> Option<(Seq<char>, Seq<char>)> {
    match s.message_id {
        None => None,
        Some(m) => Some((
            source_kind_for(s.provider),
            match s.chat_id {
                Some(c) => signed_decimal(c as int) + seq![':'] + signed_decimal(m as int),
                None => signed_decimal(m as int),
            },
        )),
    }
}

pub open spec fn source_view(r: SourceRef) -> (Seq<char>, Seq<char>) {
    (r.kind@, r.id@)
}

/// The source reference of a message snapshot.
pub fn message_snapshot_source_ref(snapshot: &MessageSnapshot) -> (r: Option<SourceRef>)
    ensures
        match r {
            Some(x) => spec_snapshot_source(*snapshot) == Some(source_view(x)),
            None => spec_snapshot_source(*snapshot) is None,
        },
{
    let message_id = match snapshot.message_id {
        Some(m) => m,
        None => {
            return None;
        },
    };
    let kind = match &snapshot.provider {
        Some(p) => {
            let pc = chars_of(p.as_str());
            if chars_is(&pc, "telegram") {
                "telegram_message"
            } else if chars_is(&pc, "github") {
                "github_message"
            } else {
                "message"
            }
        },
        None => "message",
    };
    let mut id: Vec<char> = Vec::new();
    match snapshot.chat_id {
        Some(c) => {
            let cd = to_decimal_i64(c);
            push_chars(&mut id, &cd);
            id.push(':');
        },
        None => {},
    }
    let md = to_decimal_i64(message_id);
    push_chars(&mut id, &md);
    Some(SourceRef { kind: String::from_str(kind), id: string_of(&id) })
}


/// A task named by its id, or by the operation of the same batch that
/// creates it.
pub struct TaskBatchReferenceArgs {
    pub task_id: Option<String>,
    pub operation_id: Option<String>,
}

pub struct TaskBatchReference {
    pub task_id: Option<String>,
    pub operation_id: Option<String>,
}

pub fn parse_task_batch_reference(value: TaskBatchReferenceArgs) -> (r: TaskBatchReference)
    ensures
        r.task_id == value.task_id,
        r.operation_id == value.operation_id,
{
    TaskBatchReference { task_id: value.task_id, operation_id: value.operation_id }
}

/// One operation of a task batch as a tool call gives it.
pub enum TaskBatchOperationArgs {
    Create {
        operation_id: String,
        project_id: String,
        description: String,
        urgency: Option<String>,
        source: Option<SnapshotArgs>,
    },
    Update {
        operation_id: String,
        task: TaskBatchReferenceArgs,
        description: Option<String>,
        urgency: Option<String>,
        status: Option<String>,
        source: Option<SnapshotArgs>,
        clear_source: bool,
    },
    Link {
        operation_id: String,
        task: TaskBatchReferenceArgs,
        target: TaskBatchReferenceArgs,
        relation: String,
    },
    Unlink {
        operation_id: String,
        task: TaskBatchReferenceArgs,
        target: TaskBatchReferenceArgs,
        relation: String,
    },
}

/// The changes that an update makes to a task; `source` is `Some(None)` where
/// the source is cleared.
pub struct TaskPatch {
    pub description: Option<String>,
    pub urgency: Option<Urgency>,
    pub status: Option<TaskStatus>,
    pub source: Option<Option<MessageSnapshot>>,
}

/// One parsed operation of a task batch.
pub enum TaskBatchOperation {
    Create {
        operation_id: String,
        project_id: String,
        description: String,
        urgency: Urgency,
        source: Option<MessageSnapshot>,
    },
    Update { operation_id: String, task: TaskBatchReference, patch: TaskPatch },
    Link {
        operation_id: String,
        task: TaskBatchReference,
        target: TaskBatchReference,
        relation: TaskRelationKind,
    },
    Unlink {
        operation_id: String,
        task: TaskBatchReference,
        target: TaskBatchReference,
        relation: TaskRelationKind,
    },
}

pub open spec fn msg_source_conflict() -> Seq<char> {
    "source и clear_source нельзя задавать одновременно"@
}

pub open spec fn urgency_known(name: Seq<char>) -> bool {
    exists|u: Urgency| #[trigger] urgency_name(u) == name
}

pub open spec fn status_known(name: Seq<char>) -> bool {
    exists|s: TaskStatus| #[trigger] status_name(s) == name
}

pub open spec fn relation_known(name: Seq<char>) -> bool {
    exists|k: TaskRelationKind| #[trigger] relation_name(k) == trim_ws(name)
}

/// The urgency name of a created task: `normal` where none is given.
pub open spec fn create_urgency_name(urgency: Option<String>) -> Seq<char> {
    match urgency {
        Some(u) => u@,
        None => "normal"@,
    }
}

/// The error of an optional snapshot, if any.
pub open spec fn source_error(source: Option<SnapshotArgs>) -> Option<Seq<char>> {
    match source {
        Some(s) => snapshot_error(s),
        None => None,
    }
}

/// The error that `parse_task_batch_operation` gives for `a`, if any, in the
/// order in which it checks.
pub open spec fn operation_error(a: TaskBatchOperationArgs) -> Option<Seq<char>> {
    match a {
        TaskBatchOperationArgs::Create { urgency, source, .. } => if !urgency_known(create_urgency_name(urgency)) {
            Some(msg_bad_urgency())
        } else {
            source_error(source)
        },
        TaskBatchOperationArgs::Update { urgency, status, source, clear_source, .. } => if clear_source && source is Some {
            Some(msg_source_conflict())
        } else if !clear_source && source_error(source) is Some {
            source_error(source)
        } else if urgency is Some && !urgency_known(urgency->0@) {
            Some(msg_bad_urgency())
        } else if status is Some && !status_known(status->0@) {
            Some(msg_bad_status())
        } else {
            None
        },
        TaskBatchOperationArgs::Link { relation, .. } => if !relation_known(relation@) {
            Some(msg_bad_relation())
        } else {
            None
        },
        TaskBatchOperationArgs::Unlink { relation, .. } => if !relation_known(relation@) {
            Some(msg_bad_relation())
        } else {
            None
        },
    }
}

pub open spec fn reference_matches(r: TaskBatchReference, a: TaskBatchReferenceArgs) -> bool {
    r.task_id == a.task_id && r.operation_id == a.operation_id
}

pub open spec fn optional_snapshot_matches(s: Option<MessageSnapshot>, a: Option<SnapshotArgs>) -> bool {
    match (s, a) {
        (None, None) => true,
        (Some(x), Some(y)) => snapshot_matches(x, y),
        _ => false,
    }
}

pub open spec fn patch_matches(
    p: TaskPatch,
    description: Option<String>,
    urgency: Option<String>,
    status: Option<String>,
    source: Option<SnapshotArgs>,
    clear_source: bool,
) -> bool {
    &&& p.description == description
    &&& match (p.urgency, urgency) {
        (None, None) => true,
        (Some(u), Some(n)) => urgency_name(u) == n@,
        _ => false,
    }
    &&& match (p.status, status) {
        (None, None) => true,
        (Some(x), Some(n)) => status_name(x) == n@,
        _ => false,
    }
    &&& if clear_source {
        p.source == Some(None::<MessageSnapshot>)
    } else {
        match (p.source, source) {
            (None, None) => true,
            (Some(Some(x)), Some(y)) => snapshot_matches(x, y),
            _ => false,
        }
    }
}

/// `op` is what `a` asks for: the same kind of operation with the same ids
/// and texts and the named urgency, status, relation and snapshots.
pub open spec fn operation_matches(op: TaskBatchOperation, a: TaskBatchOperationArgs) -> bool {
    match (op, a) {
        (
            TaskBatchOperation::Create { operation_id, project_id, description, urgency, source },
            TaskBatchOperationArgs::Create {
                operation_id: a_operation_id,
                project_id: a_project_id,
                description: a_description,
                urgency: a_urgency,
                source: a_source,
            },
        ) => {
            &&& operation_id == a_operation_id
            &&& project_id == a_project_id
            &&& description == a_description
            &&& urgency_name(urgency) == create_urgency_name(a_urgency)
            &&& optional_snapshot_matches(source, a_source)
        },
        (
            TaskBatchOperation::Update { operation_id, task, patch },
            TaskBatchOperationArgs::Update {
                operation_id: a_operation_id,
                task: a_task,
                description,
                urgency,
                status,
                source,
                clear_source,
            },
        ) => {
            &&& operation_id == a_operation_id
            &&& reference_matches(task, a_task)
            &&& patch_matches(patch, description, urgency, status, source, clear_source)
        },
        (
            TaskBatchOperation::Link { operation_id, task, target, relation },
            TaskBatchOperationArgs::Link { operation_id: a_operation_id, task: a_task, target: a_target, relation: a_relation },
        ) => {
            &&& operation_id == a_operation_id
            &&& reference_matches(task, a_task)
            &&& reference_matches(target, a_target)
            &&& relation_name(relation) == trim_ws(a_relation@)
        },
        (
            TaskBatchOperation::Unlink { operation_id, task, target, relation },
            TaskBatchOperationArgs::Unlink { operation_id: a_operation_id, task: a_task, target: a_target, relation: a_relation },
        ) => {
            &&& operation_id == a_operation_id
            &&& reference_matches(task, a_task)
            &&& reference_matches(target, a_target)
            &&& relation_name(relation) == trim_ws(a_relation@)
        },
        _ => false,
    }
}

fn parse_optional_snapshot(source: Option<SnapshotArgs>) -> (r: Result<Option<MessageSnapshot>, String>)
    ensures
        match r {
            Ok(s) => source_error(source) is None && optional_snapshot_matches(s, source),
            Err(e) => source_error(source) == Some(e@),
        },
{
    match source {
        Some(s) => match parse_snapshot(s) {
            Ok(x) => Ok(Some(x)),
            Err(e) => Err(e),
        },
        None => Ok(None),
    }
}

/// The batch operation that `value` describes, or the first error found in
/// it: a create's urgency (`normal` by default) before its source; an
/// update's source conflict, then its source, urgency and status; a link's
/// or unlink's relation.
pub fn parse_task_batch_operation(value: TaskBatchOperationArgs) -> (r: Result<TaskBatchOperation, String>)
    ensures
        match r {
            Ok(op) => operation_error(value) is None && operation_matches(op, value),
            Err(e) => operation_error(value) == Some(e@),
        },
{
    match value {
        TaskBatchOperationArgs::Create { operation_id, project_id, description, urgency, source } => {
            let u = match &urgency {
                Some(name) => parse_urgency(name.as_str()),
                None => parse_urgency("normal"),
            };
            let u = match u {
                Ok(u) => u,
                Err(e) => {
                    return Err(e);
                },
            };
            let source = match parse_optional_snapshot(source) {
                Ok(s) => s,
                Err(e) => {
                    return Err(e);
                },
            };
            Ok(TaskBatchOperation::Create { operation_id, project_id, description, urgency: u, source })
        },
        TaskBatchOperationArgs::Update { operation_id, task, description, urgency, status, source, clear_source } => {
            if clear_source && source.is_some() {
                return Err(String::from_str("source и clear_source нельзя задавать одновременно"));
            }
            let patch_source = if clear_source {
                Some(None)
            } else {
                match parse_optional_snapshot(source) {
                    Ok(Some(s)) => Some(Some(s)),
                    Ok(None) => None,
                    Err(e) => {
                        return Err(e);
                    },
                }
            };
            let patch_urgency = match &urgency {
                Some(name) => match parse_urgency(name.as_str()) {
                    Ok(u) => Some(u),
                    Err(e) => {
                        return Err(e);
                    },
                },
                None => None,
            };
            let patch_status = match &status {
                Some(name) => match parse_status(name.as_str()) {
                    Ok(x) => Some(x),
                    Err(e) => {
                        return Err(e);
                    },
                },
                None => None,
            };
            Ok(TaskBatchOperation::Update {
                operation_id,
                task: parse_task_batch_reference(task),
                patch: TaskPatch { description, urgency: patch_urgency, status: patch_status, source: patch_source },
            })
        },
        TaskBatchOperationArgs::Link { operation_id, task, target, relation } => {
            match parse_task_relation_kind(relation.as_str()) {
                Ok(k) => Ok(TaskBatchOperation::Link {
                    operation_id,
                    task: parse_task_batch_reference(task),
                    target: parse_task_batch_reference(target),
                    relation: k,
                }),
                Err(e) => Err(e),
            }
        },
        TaskBatchOperationArgs::Unlink { operation_id, task, target, relation } => {
            match parse_task_relation_kind(relation.as_str()) {
                Ok(k) => Ok(TaskBatchOperation::Unlink {
                    operation_id,
                    task: parse_task_batch_reference(task),
                    target: parse_task_batch_reference(target),
                    relation: k,
                }),
                Err(e) => Err(e),
            }
        },
    }
}


/// An entity that a mutation plan touches.
pub struct EntityRef {
    pub kind: String,
    pub id: String,
    pub project_id: Option<String>,
}

/// The version of a task that a batch expects to find.
pub struct ExpectedTaskVersion {
    pub task_id: String,
    pub version: String,
}

pub struct ExpectedVersion {
    pub entity: EntityRef,
    pub version: String,
}

/// The head of one operation of a plan: its id, what it does and what it
/// acts on. (Its payload is the operation itself.)
pub struct PlanOperation {
    pub operation_id: String,
    pub kind: String,
    pub target: Option<EntityRef>,
}

/// What a mutation asks to change, to be approved before it runs: made by an
/// agent through MCP, reversible, with explicit approval and no outside
/// effect.
pub struct MutationPlanDraft {
    pub request_id: String,
    pub target: EntityRef,
    pub reasons: Vec<String>,
    pub expected_versions: Vec<ExpectedVersion>,
    pub operations: Vec<PlanOperation>,
    pub affected_entities: Vec<EntityRef>,
    pub sources: Vec<SourceRef>,
}

pub open spec fn opt_view(o: Option<String>) -> Option<Seq<char>> {
    match o {
        Some(s) => Some(s@),
        None => None,
    }
}

pub open spec fn entity_view(e: EntityRef) -> (Seq<char>, Seq<char>, Option<Seq<char>>) {
    (e.kind@, e.id@, opt_view(e.project_id))
}

pub open spec fn opt_entity_view(e: Option<EntityRef>) -> Option<(Seq<char>, Seq<char>, Option<Seq<char>>)> {
    match e {
        Some(x) => Some(entity_view(x)),
        None => None,
    }
}

pub open spec fn task_entity(id: Seq<char>) -> (Seq<char>, Seq<char>, Option<Seq<char>>) {
    ("task"@, id, None)
}

pub open spec fn task_ref_entity(r: TaskBatchReference) -> Option<(Seq<char>, Seq<char>, Option<Seq<char>>)> {
    match r.task_id {
        Some(id) => Some(task_entity(id@)),
        None => None,
    }
}

pub open spec fn op_id(op: TaskBatchOperation) -> Seq<char> {
    match op {
        TaskBatchOperation::Create { operation_id, .. } => operation_id@,
        TaskBatchOperation::Update { operation_id, .. } => operation_id@,
        TaskBatchOperation::Link { operation_id, .. } => operation_id@,
        TaskBatchOperation::Unlink { operation_id, .. } => operation_id@,
    }
}

pub open spec fn op_kind(op: TaskBatchOperation) -> Seq<char> {
    match op {
        TaskBatchOperation::Create { .. } => "create_task"@,
        TaskBatchOperation::Update { .. } => "update_task"@,
        TaskBatchOperation::Link { .. } => "link_tasks"@,
        TaskBatchOperation::Unlink { .. } => "unlink_tasks"@,
    }
}

/// The entity an operation acts on: the draft of a created task, or the task
/// that an update, link or unlink names by id.
pub open spec fn op_target(op: TaskBatchOperation) -> Option<(Seq<char>, Seq<char>, Option<Seq<char>>)> {
    match op {
        TaskBatchOperation::Create { operation_id, project_id, .. } => Some(("task_draft"@, operation_id@, Some(project_id@))),
        TaskBatchOperation::Update { task, .. } => task_ref_entity(task),
        TaskBatchOperation::Link { task, .. } => task_ref_entity(task),
        TaskBatchOperation::Unlink { task, .. } => task_ref_entity(task),
    }
}

/// The drafts of the tasks that `ops` create, in order.
pub open spec fn draft_entities(ops: Seq<TaskBatchOperation>) -> Seq<(Seq<char>, Seq<char>, Option<Seq<char>>)>
    decreases ops.len(),
{
    if ops.len() == 0 {
        Seq::empty()
    } else {
        let rest = draft_entities(ops.drop_last());
        match ops.last() {
            TaskBatchOperation::Create { .. } => rest.push(op_target(ops.last())->0),
            _ => rest,
        }
    }
}

/// The message that an operation cites: the source of a created task or the
/// new source of an updated one.
pub open spec fn op_source(op: TaskBatchOperation) -> Option<(Seq<char>, Seq<char>)> {
    match op {
        TaskBatchOperation::Create { source: Some(s), .. } => spec_snapshot_source(s),
        TaskBatchOperation::Update { patch, .. } => match patch.source {
            Some(Some(s)) => spec_snapshot_source(s),
            _ => None,
        },
        _ => None,
    }
}

/// The order of source references: by kind, then by id.
pub open spec fn source_less(a: (Seq<char>, Seq<char>), b: (Seq<char>, Seq<char>)) -> bool {
    seq_less(a.0, b.0) || (a.0 == b.0 && seq_less(a.1, b.1))
}

pub open spec fn source_views(v: Seq<SourceRef>) -> Seq<(Seq<char>, Seq<char>)> {
    v.map_values(|x: SourceRef| source_view(x))
}

pub open spec fn sources_sorted(s: Seq<(Seq<char>, Seq<char>)>) -> bool {
    forall|i: int, j: int| 0 <= i < j < s.len() ==> source_less(#[trigger] s[i], #[trigger] s[j])
}

proof fn lemma_source_less_transitive(a: (Seq<char>, Seq<char>), b: (Seq<char>, Seq<char>), c: (Seq<char>, Seq<char>))
    requires
        source_less(a, b),
        source_less(b, c),
    ensures
        source_less(a, c),
{
    if seq_less(a.0, b.0) && seq_less(b.0, c.0) {
        lemma_seq_less_transitive(a.0, b.0, c.0);
    } else if a.0 == b.0 && b.0 == c.0 {
        lemma_seq_less_transitive(a.1, b.1, c.1);
    }
}

proof fn lemma_source_less_total(a: (Seq<char>, Seq<char>), b: (Seq<char>, Seq<char>))
    requires
        a != b,
    ensures
        source_less(a, b) || source_less(b, a),
{
    if a.0 != b.0 {
        lemma_seq_less_total(a.0, b.0);
    } else {
        assert(a.1 != b.1);
        lemma_seq_less_total(a.1, b.1);
    }
}

fn source_less_exec(a: &SourceRef, b: &SourceRef) -> (r: bool)
    ensures
        r == source_less(source_view(*a), source_view(*b)),
{
    let ak = chars_of(a.kind.as_str());
    let bk = chars_of(b.kind.as_str());
    if chars_less(&ak, &bk) {
        true
    } else if chars_eq(&ak, &bk) {
        chars_less(&chars_of(a.id.as_str()), &chars_of(b.id.as_str()))
    } else {
        false
    }
}

/// Adds `x` to the sorted `v` unless an equal reference is there already.
fn insert_source(v: &mut Vec<SourceRef>, x: SourceRef)
    requires
        sources_sorted(source_views(old(v)@)),
    ensures
        sources_sorted(source_views(final(v)@)),
        forall|y: (Seq<char>, Seq<char>)|
            source_views(final(v)@).contains(y) <==> (source_views(old(v)@).contains(y) || y == source_view(x)),
{
    let ghost s = source_views(v@);
    let ghost xv = source_view(x);
    let mut p: usize = 0;
    while p < v.len() && source_less_exec(&v[p], &x)
        invariant
            p <= v@.len(),
            s == source_views(v@),
            xv == source_view(x),
            forall|i: int| 0 <= i < p ==> source_less(#[trigger] s[i], xv),
        decreases v.len() - p,
    {
        p = p + 1;
    }
    if p < v.len() {
        if !source_less_exec(&x, &v[p]) {
            proof {
                if s[p as int] != xv {
                    lemma_source_less_total(s[p as int], xv);
                }
            }
            assert(s[p as int] == xv);
            assert(s.contains(xv));
            return;
        }
        proof {
            assert forall|j: int| p <= j < s.len() implies source_less(xv, #[trigger] s[j]) by {
                if j > p {
                    lemma_source_less_transitive(xv, s[p as int], s[j]);
                }
            }
        }
    }
    v.insert(p, x);
    proof {
        let t = source_views(v@);
        assert(t == s.insert(p as int, xv));
        assert forall|i: int, j: int| 0 <= i < j < t.len() implies source_less(#[trigger] t[i], #[trigger] t[j]) by {
            if j < p {
            } else if j == p {
            } else if i < p {
                lemma_source_less_transitive(s[i], xv, s[j - 1]);
            } else if i == p {
            } else {
            }
        }
        assert forall|y: (Seq<char>, Seq<char>)| t.contains(y) <==> (s.contains(y) || y == xv) by {
            if t.contains(y) {
                let k = choose|k: int| 0 <= k < t.len() && t[k] == y;
                if k < p {
                    assert(s[k] == y);
                } else if k > p {
                    assert(s[k - 1] == y);
                }
            }
            if s.contains(y) {
                let k = choose|k: int| 0 <= k < s.len() && s[k] == y;
                if k < p {
                    assert(t[k] == y);
                } else {
                    assert(t[k + 1] == y);
                }
            }
            if y == xv {
                assert(t[p as int] == y);
            }
        }
    }
}

fn clone_opt(o: &Option<String>) -> (r: Option<String>)
    ensures
        r == *o,
{
    match o {
        Some(s) => Some(s.clone()),
        None => None,
    }
}

fn task_entity_ref(id: &String) -> (r: EntityRef)
    ensures
        entity_view(r) == task_entity(id@),
{
    EntityRef { kind: String::from_str("task"), id: id.clone(), project_id: None }
}

fn clone_entity(e: &EntityRef) -> (r: EntityRef)
    ensures
        entity_view(r) == entity_view(*e),
{
    EntityRef { kind: e.kind.clone(), id: e.id.clone(), project_id: clone_opt(&e.project_id) }
}

fn task_ref_entity_exec(r: &TaskBatchReference) -> (e: Option<EntityRef>)
    ensures
        opt_entity_view(e) == task_ref_entity(*r),
{
    match &r.task_id {
        Some(id) => Some(task_entity_ref(id)),
        None => None,
    }
}

/// The head of the plan operation for `op`.
fn plan_operation(op: &TaskBatchOperation) -> (r: PlanOperation)
    ensures
        r.operation_id@ == op_id(*op),
        r.kind@ == op_kind(*op),
        opt_entity_view(r.target) == op_target(*op),
{
    match op {
        TaskBatchOperation::Create { operation_id, project_id, .. } => PlanOperation {
            operation_id: operation_id.clone(),
            kind: String::from_str("create_task"),
            target: Some(EntityRef {
                kind: String::from_str("task_draft"),
                id: operation_id.clone(),
                project_id: Some(project_id.clone()),
            }),
        },
        TaskBatchOperation::Update { operation_id, task, .. } => PlanOperation {
            operation_id: operation_id.clone(),
            kind: String::from_str("update_task"),
            target: task_ref_entity_exec(task),
        },
        TaskBatchOperation::Link { operation_id, task, .. } => PlanOperation {
            operation_id: operation_id.clone(),
            kind: String::from_str("link_tasks"),
            target: task_ref_entity_exec(task),
        },
        TaskBatchOperation::Unlink { operation_id, task, .. } => PlanOperation {
            operation_id: operation_id.clone(),
            kind: String::from_str("unlink_tasks"),
            target: task_ref_entity_exec(task),
        },
    }
}

fn operation_source(op: &TaskBatchOperation) -> (r: Option<SourceRef>)
    ensures
        match r {
            Some(x) => op_source(*op) == Some(source_view(x)),
            None => op_source(*op) is None,
        },
{
    match op {
        TaskBatchOperation::Create { source: Some(s), .. } => message_snapshot_source_ref(s),
        TaskBatchOperation::Update { patch, .. } => match &patch.source {
            Some(Some(s)) => message_snapshot_source_ref(s),
            _ => None,
        },
        _ => None,
    }
}

pub open spec fn entity_views(v: Seq<EntityRef>) -> Seq<(Seq<char>, Seq<char>, Option<Seq<char>>)> {
    v.map_values(|e: EntityRef| entity_view(e))
}

pub open spec fn expected_entities(ev: Seq<ExpectedTaskVersion>) -> Seq<(Seq<char>, Seq<char>, Option<Seq<char>>)> {
    ev.map_values(|e: ExpectedTaskVersion| task_entity(e.task_id@))
}

/// Whether some operation among the first `n` of `ops` cites `x`.
pub open spec fn cited_by(ops: Seq<TaskBatchOperation>, n: int, x: (Seq<char>, Seq<char>)) -> bool {
    exists|j: int| 0 <= j < n && #[trigger] op_source(ops[j]) == Some(x)
}

fn expected_version_list(expected_versions: &Vec<ExpectedTaskVersion>) -> (r: Vec<ExpectedVersion>)
    ensures
        r@.len() == expected_versions@.len(),
        forall|i: int| 0 <= i < r@.len() ==> entity_view(#[trigger] r@[i].entity) == task_entity(expected_versions@[i].task_id@)
            && r@[i].version@ == expected_versions@[i].version@,
{
    let mut out: Vec<ExpectedVersion> = Vec::new();
    let mut i: usize = 0;
    while i < expected_versions.len()
        invariant
            i <= expected_versions@.len(),
            out@.len() == i,
            forall|k: int| 0 <= k < i ==> entity_view(#[trigger] out@[k].entity) == task_entity(expected_versions@[k].task_id@)
                && out@[k].version@ == expected_versions@[k].version@,
        decreases expected_versions.len() - i,
    {
        let e = &expected_versions[i];
        out.push(ExpectedVersion { entity: task_entity_ref(&e.task_id), version: e.version.clone() });
        i = i + 1;
    }
    out
}

/// The mutation plan of a task batch under the request id `request_id`: the
/// expected task versions; one plan operation per batch operation, in order;
/// the affected entities (the expected tasks, then the drafts of the created
/// tasks); and the distinct cited messages in order of kind and id.
pub fn task_batch_mutation_plan(
    operations: &Vec<TaskBatchOperation>,
    expected_versions: &Vec<ExpectedTaskVersion>,
    request_id: &str,
) -> (r: MutationPlanDraft)
    ensures
        r.request_id@ == request_id@,
        entity_view(r.target) == ("task_batch"@, request_id@, None::<Seq<char>>),
        str_views(r.reasons@) == seq!["task_batch"@],
        r.expected_versions@.len() == expected_versions@.len(),
        forall|i: int| 0 <= i < expected_versions@.len()
            ==> entity_view(#[trigger] r.expected_versions@[i].entity) == task_entity(expected_versions@[i].task_id@)
                && r.expected_versions@[i].version@ == expected_versions@[i].version@,
        r.operations@.len() == operations@.len(),
        forall|i: int| 0 <= i < operations@.len() ==> {
            &&& (#[trigger] r.operations@[i]).operation_id@ == op_id(operations@[i])
            &&& r.operations@[i].kind@ == op_kind(operations@[i])
            &&& opt_entity_view(r.operations@[i].target) == op_target(operations@[i])
        },
        entity_views(r.affected_entities@) == expected_entities(expected_versions@) + draft_entities(operations@),
        sources_sorted(source_views(r.sources@)),
        forall|x: (Seq<char>, Seq<char>)|
            source_views(r.sources@).contains(x) <==> cited_by(operations@, operations@.len() as int, x),
{
    let expected = expected_version_list(expected_versions);
    let mut affected: Vec<EntityRef> = Vec::new();
    let mut i: usize = 0;
    while i < expected.len()
        invariant
            i <= expected@.len(),
            expected@.len() == expected_versions@.len(),
            forall|k: int| 0 <= k < expected@.len() ==> entity_view(#[trigger] expected@[k].entity) == task_entity(expected_versions@[k].task_id@),
            entity_views(affected@) == expected_entities(expected_versions@).take(i as int),
        decreases expected.len() - i,
    {
        let ghost before = affected@;
        affected.push(clone_entity(&expected[i].entity));
        assert(entity_views(affected@) == entity_views(before).push(entity_view(expected@[i as int].entity)));
        assert(expected_entities(expected_versions@).take(i + 1) == expected_entities(expected_versions@).take(i as int).push(
            task_entity(expected_versions@[i as int].task_id@),
        ));
        i = i + 1;
    }
    assert(expected_entities(expected_versions@).take(i as int) == expected_entities(expected_versions@));
    let ghost base = entity_views(affected@);
    let mut plan_ops: Vec<PlanOperation> = Vec::new();
    let mut sources: Vec<SourceRef> = Vec::new();
    let mut j: usize = 0;
    while j < operations.len()
        invariant
            j <= operations@.len(),
            base == expected_entities(expected_versions@),
            entity_views(affected@) == base + draft_entities(operations@.take(j as int)),
            plan_ops@.len() == j,
            forall|k: int| 0 <= k < j ==> {
                &&& (#[trigger] plan_ops@[k]).operation_id@ == op_id(operations@[k])
                &&& plan_ops@[k].kind@ == op_kind(operations@[k])
                &&& opt_entity_view(plan_ops@[k].target) == op_target(operations@[k])
            },
            sources_sorted(source_views(sources@)),
            forall|x: (Seq<char>, Seq<char>)| source_views(sources@).contains(x) <==> cited_by(operations@, j as int, x),
        decreases operations.len() - j,
    {
        let op = &operations[j];
        let ghost opv = operations@[j as int];
        assert(operations@.take(j + 1).drop_last() == operations@.take(j as int));
        assert(operations@.take(j + 1).last() == opv);
        match operation_source(op) {
            Some(x) => {
                let ghost before = source_views(sources@);
                let ghost xv = source_view(x);
                insert_source(&mut sources, x);
                assert forall|y: (Seq<char>, Seq<char>)| source_views(sources@).contains(y) <==> cited_by(operations@, j + 1, y) by {
                    if y == xv {
                        assert(op_source(operations@[j as int]) == Some(y));
                    }
                    if cited_by(operations@, j + 1, y) {
                        let w = choose|w: int| 0 <= w < j + 1 && #[trigger] op_source(operations@[w]) == Some(y);
                        if w < j {
                            assert(cited_by(operations@, j as int, y));
                        }
                    }
                    if cited_by(operations@, j as int, y) {
                        let w = choose|w: int| 0 <= w < j && #[trigger] op_source(operations@[w]) == Some(y);
                        assert(0 <= w < j + 1);
                    }
                }
            },
            None => {
                assert forall|y: (Seq<char>, Seq<char>)| source_views(sources@).contains(y) <==> cited_by(operations@, j + 1, y) by {
                    if cited_by(operations@, j + 1, y) {
                        let w = choose|w: int| 0 <= w < j + 1 && #[trigger] op_source(operations@[w]) == Some(y);
                        if w < j {
                            assert(cited_by(operations@, j as int, y));
                        }
                    }
                    if cited_by(operations@, j as int, y) {
                        let w = choose|w: int| 0 <= w < j && #[trigger] op_source(operations@[w]) == Some(y);
                        assert(0 <= w < j + 1);
                    }
                }
            },
        }
        let po = plan_operation(op);
        match op {
            TaskBatchOperation::Create { .. } => {
                let ghost before = affected@;
                let draft = match &po.target {
                    Some(t) => clone_entity(t),
                    None => task_entity_ref(&po.operation_id),
                };
                affected.push(draft);
                assert(entity_views(affected@) == entity_views(before).push(op_target(opv)->0));
            },
            _ => {},
        }
        plan_ops.push(po);
        j = j + 1;
    }
    assert(operations@.take(j as int) == operations@);
    let reasons: Vec<String> = vec![String::from_str("task_batch")];
    assert(str_views(reasons@) == seq!["task_batch"@]);
    MutationPlanDraft {
        request_id: String::from_str(request_id),
        target: EntityRef { kind: String::from_str("task_batch"), id: String::from_str(request_id), project_id: None },
        reasons,
        expected_versions: expected,
        operations: plan_ops,
        affected_entities: affected,
        sources,
    }
}


pub open spec fn workspace_item_entity(project_id: Seq<char>, id: Seq<char>) -> (Seq<char>, Seq<char>, Option<Seq<char>>) {
    ("project_workspace_item"@, id, Some(project_id))
}

fn workspace_item_ref(project_id: &str, id: &str) -> (r: EntityRef)
    ensures
        entity_view(r) == workspace_item_entity(project_id@, id@),
{
    EntityRef {
        kind: String::from_str("project_workspace_item"),
        id: String::from_str(id),
        project_id: Some(String::from_str(project_id)),
    }
}

/// The mutation plan of an update of a project material that expects the
/// material at `expected_version`: its request id is derived from the
/// project, the material and that version; it has one operation, `update`,
/// on the material, which it also names as target and affected entity.
/// (The new title, summary, content and agent access are the operation's
/// payload.)
pub fn project_workspace_update_mutation_plan(project_id: &str, id: &str, expected_version: &str) -> (r: MutationPlanDraft)
    ensures
        r.request_id@ == "workspace-update-"@ + hex_lower(sha256(update_digest_input(project_id@, id@, expected_version@))),
        entity_view(r.target) == workspace_item_entity(project_id@, id@),
        str_views(r.reasons@) == seq!["project_workspace_update"@],
        r.expected_versions@.len() == 1,
        entity_view(r.expected_versions@[0].entity) == workspace_item_entity(project_id@, id@),
        r.expected_versions@[0].version@ == expected_version@,
        r.operations@.len() == 1,
        r.operations@[0].operation_id@ == "update"@,
        r.operations@[0].kind@ == "update_project_workspace_item"@,
        opt_entity_view(r.operations@[0].target) == Some(workspace_item_entity(project_id@, id@)),
        entity_views(r.affected_entities@) == seq![workspace_item_entity(project_id@, id@)],
        r.sources@.len() == 0,
{
    let request_id = workspace_update_request_id(project_id, id, expected_version);
    let expected_versions: Vec<ExpectedVersion> = vec![
        ExpectedVersion { entity: workspace_item_ref(project_id, id), version: String::from_str(expected_version) },
    ];
    let operations: Vec<PlanOperation> = vec![
        PlanOperation {
            operation_id: String::from_str("update"),
            kind: String::from_str("update_project_workspace_item"),
            target: Some(workspace_item_ref(project_id, id)),
        },
    ];
    let affected_entities: Vec<EntityRef> = vec![workspace_item_ref(project_id, id)];
    assert(entity_views(affected_entities@) == seq![workspace_item_entity(project_id@, id@)]);
    let reasons: Vec<String> = vec![String::from_str("project_workspace_update")];
    assert(str_views(reasons@) == seq!["project_workspace_update"@]);
    MutationPlanDraft {
        request_id,
        target: workspace_item_ref(project_id, id),
        reasons,
        expected_versions,
        operations,
        affected_entities,
        sources: Vec::new(),
    }
}


/// The payload of a material update, as JSON.
pub open spec fn update_payload_view(
    title: Seq<char>,
    summary: Option<Seq<char>>,
    content: Seq<char>,
    agent_access: bool,
) -> crate::json::JsonView {
    crate::json::JsonView::Object(seq![
        ("title"@, crate::json::JsonView::Str(title)),
        ("summary"@, match summary {
            Some(x) => crate::json::JsonView::Str(x),
            None => crate::json::JsonView::Null,
        }),
        ("content"@, crate::json::JsonView::Str(content)),
        ("agent_access"@, crate::json::JsonView::Bool(agent_access)),
    ])
}

/// Law: what an apply confirms is bound to what its preview showed. Preview
/// and apply of an update of one material from one expected version make
/// plans with the same request id; and the update's payload is the
/// previewed one exactly when the title, summary, content and agent access
/// are the previewed ones, so an apply with other content carries another
/// payload than the one the preview confirmed.
pub proof fn lemma_apply_payload_matches_preview(
    title: Seq<char>,
    summary: Option<Seq<char>>,
    content: Seq<char>,
    agent_access: bool,
    applied_title: Seq<char>,
    applied_summary: Option<Seq<char>>,
    applied_content: Seq<char>,
    applied_access: bool,
)
    ensures
        update_payload_view(title, summary, content, agent_access) == update_payload_view(
            applied_title,
            applied_summary,
            applied_content,
            applied_access,
        ) <==> (title == applied_title && summary == applied_summary && content == applied_content
            && agent_access == applied_access),
{
    let p = update_payload_view(title, summary, content, agent_access);
    let q = update_payload_view(applied_title, applied_summary, applied_content, applied_access);
    if p == q {
        let (ps, qs) = match (p, q) {
            (crate::json::JsonView::Object(a), crate::json::JsonView::Object(b)) => (a, b),
            _ => (Seq::empty(), Seq::empty()),
        };
        assert(ps[0] == qs[0]);
        assert(ps[1] == qs[1]);
        assert(ps[2] == qs[2]);
        assert(ps[3] == qs[3]);
        match (summary, applied_summary) {
            (Some(x), Some(y)) => assert(x == y),
            (None, None) => {},
            (Some(x), None) => assert(ps[1].1 != qs[1].1),
            (None, Some(y)) => assert(ps[1].1 != qs[1].1),
        }
    }
}

/// The payload of the `update` operation of a material update: the new
/// title, summary (`null` when none), content and agent access.
pub fn workspace_update_payload(title: &str, summary: Option<&str>, content: &str, agent_access: bool) -> (r: crate::json::JsonValue)
    ensures
        crate::json::json_view(r) == update_payload_view(
            title@,
            match summary { Some(x) => Some(x@), None => None },
            content@,
            agent_access,
        ),
{
    let summary_value = match summary {
        Some(x) => crate::json::JsonValue::Str(String::from_str(x)),
        None => crate::json::JsonValue::Null,
    };
    let entries: Vec<(String, crate::json::JsonValue)> = vec![
        (String::from_str("title"), crate::json::JsonValue::Str(String::from_str(title))),
        (String::from_str("summary"), summary_value),
        (String::from_str("content"), crate::json::JsonValue::Str(String::from_str(content))),
        (String::from_str("agent_access"), crate::json::JsonValue::Bool(agent_access)),
    ];
    proof {
        reveal_with_fuel(crate::json::entry_views, 5);
        assert(entries@.drop_last().drop_last().drop_last().drop_last() =~= Seq::<(String, crate::json::JsonValue)>::empty());
        assert(crate::json::entry_views(entries@) =~= seq![
            ("title"@, crate::json::JsonView::Str(title@)),
            ("summary"@, match summary {
                Some(x) => crate::json::JsonView::Str(x@),
                None => crate::json::JsonView::Null,
            }),
            ("content"@, crate::json::JsonView::Str(content@)),
            ("agent_access"@, crate::json::JsonView::Bool(agent_access)),
        ]);
        let sv: Option<Seq<char>> = match summary { Some(x) => Some(x@), None => None };
        assert(crate::json::entry_views(entries@) =~= seq![
            ("title"@, crate::json::JsonView::Str(title@)),
            ("summary"@, match sv {
                Some(x) => crate::json::JsonView::Str(x),
                None => crate::json::JsonView::Null,
            }),
            ("content"@, crate::json::JsonView::Str(content@)),
            ("agent_access"@, crate::json::JsonView::Bool(agent_access)),
        ]);
    }
    crate::json::JsonValue::Object(entries)
}


/// What a task batch touches, before any task is looked up: the projects
/// its creates name and the tasks (by id) that its updates, links and
/// unlinks name, each in order and with repeats.
pub open spec fn batch_refs(ops: Seq<TaskBatchOperationArgs>) -> (Seq<Seq<char>>, Seq<Seq<char>>)
    decreases ops.len(),
{
    if ops.len() == 0 {
        (Seq::empty(), Seq::empty())
    } else {
        let rest = batch_refs(ops.drop_last());
        match ops.last() {
            TaskBatchOperationArgs::Create { project_id, .. } => (rest.0.push(project_id@), rest.1),
            TaskBatchOperationArgs::Update { task, .. } => (rest.0, rest.1 + ref_ids(task)),
            TaskBatchOperationArgs::Link { task, target, .. } => (rest.0, rest.1 + ref_ids(task) + ref_ids(target)),
            TaskBatchOperationArgs::Unlink { task, target, .. } => (rest.0, rest.1 + ref_ids(task) + ref_ids(target)),
        }
    }
}

pub open spec fn ref_ids(r: TaskBatchReferenceArgs) -> Seq<Seq<char>> {
    match r.task_id {
        Some(id) => seq![id@],
        None => Seq::empty(),
    }
}

fn push_ref(out: &mut Vec<String>, r: &TaskBatchReferenceArgs)
    ensures
        str_views(final(out)@) == str_views(old(out)@) + ref_ids(*r),
{
    match &r.task_id {
        Some(id) => {
            let ghost before = out@;
            out.push(id.clone());
            assert(str_views(out@) == str_views(before) + seq![id@]);
        },
        None => {
            assert(str_views(out@) == str_views(out@) + Seq::<Seq<char>>::empty());
        },
    }
}

/// The projects and tasks whose context a task batch needs before it runs:
/// each create's project, and each task that an operation names by id.
pub fn batch_context_refs(operations: &Vec<TaskBatchOperationArgs>) -> (r: (Vec<String>, Vec<String>))
    ensures
        str_views(r.0@) == batch_refs(operations@).0,
        str_views(r.1@) == batch_refs(operations@).1,
{
    let mut projects: Vec<String> = Vec::new();
    let mut tasks: Vec<String> = Vec::new();
    let mut i: usize = 0;
    while i < operations.len()
        invariant
            i <= operations@.len(),
            str_views(projects@) == batch_refs(operations@.take(i as int)).0,
            str_views(tasks@) == batch_refs(operations@.take(i as int)).1,
        decreases operations.len() - i,
    {
        assert(operations@.take(i + 1).drop_last() == operations@.take(i as int));
        assert(operations@.take(i + 1).last() == operations@[i as int]);
        match &operations[i] {
            TaskBatchOperationArgs::Create { project_id, .. } => {
                let ghost before = projects@;
                projects.push(project_id.clone());
                assert(str_views(projects@) == str_views(before).push(project_id@));
            },
            TaskBatchOperationArgs::Update { task, .. } => {
                push_ref(&mut tasks, task);
            },
            TaskBatchOperationArgs::Link { task, target, .. } => {
                push_ref(&mut tasks, task);
                push_ref(&mut tasks, target);
            },
            TaskBatchOperationArgs::Unlink { task, target, .. } => {
                push_ref(&mut tasks, task);
                push_ref(&mut tasks, target);
            },
        }
        i = i + 1;
    }
    assert(operations@.take(operations@.len() as int) == operations@);
    (projects, tasks)
}

} // verus!

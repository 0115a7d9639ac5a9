use vstd::prelude::*;

use crate::chars::chars_of;
use crate::paths::chars_is;
use crate::text::{trim_ws, trim_chars};

verus! {

/// How urgent a task is.
#[derive(PartialEq, Eq, Structural, Clone, Copy, Debug)]
pub enum Urgency {
    Normal,
    Important,
    Urgent,
}

/// Whether a task is open or completed.
#[derive(PartialEq, Eq, Structural, Clone, Copy, Debug)]
pub enum TaskStatus {
    Open,
    Completed,
}

/// How two tasks are related.
#[derive(PartialEq, Eq, Structural, Clone, Copy, Debug)]
pub enum TaskRelationKind {
    Related,
    SubtaskOf,
    BlockedBy,
}

/// The kind of a project material.
#[derive(PartialEq, Eq, Structural, Clone, Copy, Debug)]
pub enum ProjectWorkspaceItemKind {
    Document,
    Rule,
    Skill,
}

/// The kind of a media attachment of a message.
#[derive(PartialEq, Eq, Structural, Clone, Copy, Debug)]
pub enum SourceMediaKind {
    Photo,
    Video,
    Document,
    Audio,
    Voice,
    Animation,
    Other,
}

/// The name of an urgency in tool arguments.
pub open spec fn urgency_name(u: Urgency) -> Seq<char> {
    match u {
        Urgency::Normal => "normal"@,
        Urgency::Important => "important"@,
        Urgency::Urgent => "urgent"@,
    }
}

/// The name of a status in tool arguments.
pub open spec fn status_name(s: TaskStatus) -> Seq<char> {
    match s {
        TaskStatus::Open => "open"@,
        TaskStatus::Completed => "completed"@,
    }
}

/// The name of a relation in tool arguments.
pub open spec fn relation_name(k: TaskRelationKind) -> Seq<char> {
    match k {
        TaskRelationKind::Related => "related"@,
        TaskRelationKind::SubtaskOf => "subtask_of"@,
        TaskRelationKind::BlockedBy => "blocked_by"@,
    }
}

/// The name of a media kind in tool arguments.
pub open spec fn media_kind_name(k: SourceMediaKind) -> Seq<char> {
    match k {
        SourceMediaKind::Photo => "photo"@,
        SourceMediaKind::Video => "video"@,
        SourceMediaKind::Document => "document"@,
        SourceMediaKind::Audio => "audio"@,
        SourceMediaKind::Voice => "voice"@,
        SourceMediaKind::Animation => "animation"@,
        SourceMediaKind::Other => "other"@,
    }
}

/// The resource URI segment of a material kind.
pub open spec fn kind_segment(k: ProjectWorkspaceItemKind) -> Seq<char> {
    match k {
        ProjectWorkspaceItemKind::Document => "documents"@,
        ProjectWorkspaceItemKind::Rule => "rules"@,
        ProjectWorkspaceItemKind::Skill => "skills"@,
    }
}

pub open spec fn msg_bad_urgency() -> Seq<char> {
    "urgency должен быть normal, important или urgent"@
}

pub open spec fn msg_bad_status() -> Seq<char> {
    "status должен быть open или completed"@
}

pub open spec fn msg_bad_relation() -> Seq<char> {
    "relation должен быть related, subtask_of или blocked_by"@
}

pub open spec fn msg_bad_media_kind() -> Seq<char> {
    "media.kind должен быть photo, video, document, audio, voice, animation или other"@
}

/// The urgency named by `value`, or the error that lists the names.
pub fn parse_urgency(value: &str) -> (r: Result<Urgency, String>)
    ensures
        match r {
            Ok(u) => urgency_name(u) == value@,
            Err(e) => e@ == msg_bad_urgency() && forall|u: Urgency| urgency_name(u) != value@,
        },
{
    let v = chars_of(value);
    if chars_is(&v, "normal") {
        Ok(Urgency::Normal)
    } else if chars_is(&v, "important") {
        Ok(Urgency::Important)
    } else if chars_is(&v, "urgent") {
        Ok(Urgency::Urgent)
    } else {
        proof {
            assert forall|u: Urgency| urgency_name(u) != value@ by {
                match u {
                    Urgency::Normal => {},
                    Urgency::Important => {},
                    Urgency::Urgent => {},
                }
            }
        }
        Err(String::from_str("urgency должен быть normal, important или urgent"))
    }
}

/// The status named by `value`, or the error that lists the names.
pub fn parse_status(value: &str) -> (r: Result<TaskStatus, String>)
    ensures
        match r {
            Ok(s) => status_name(s) == value@,
            Err(e) => e@ == msg_bad_status() && forall|s: TaskStatus| status_name(s) != value@,
        },
{
    let v = chars_of(value);
    if chars_is(&v, "open") {
        Ok(TaskStatus::Open)
    } else if chars_is(&v, "completed") {
        Ok(TaskStatus::Completed)
    } else {
        proof {
            assert forall|s: TaskStatus| status_name(s) != value@ by {
                match s {
                    TaskStatus::Open => {},
                    TaskStatus::Completed => {},
                }
            }
        }
        Err(String::from_str("status должен быть open или completed"))
    }
}

/// The relation named by `value` (surrounding white space ignored), or the
/// error that lists the names.
pub fn parse_task_relation_kind(value: &str) -> (r: Result<TaskRelationKind, String>)
    ensures
        match r {
            Ok(k) => relation_name(k) == trim_ws(value@),
            Err(e) => e@ == msg_bad_relation() && forall|k: TaskRelationKind| relation_name(k) != trim_ws(value@),
        },
{
    let v = trim_chars(&chars_of(value));
    if chars_is(&v, "related") {
        Ok(TaskRelationKind::Related)
    } else if chars_is(&v, "subtask_of") {
        Ok(TaskRelationKind::SubtaskOf)
    } else if chars_is(&v, "blocked_by") {
        Ok(TaskRelationKind::BlockedBy)
    } else {
        proof {
            assert forall|k: TaskRelationKind| relation_name(k) != trim_ws(value@) by {
                match k {
                    TaskRelationKind::Related => {},
                    TaskRelationKind::SubtaskOf => {},
                    TaskRelationKind::BlockedBy => {},
                }
            }
        }
        Err(String::from_str("relation должен быть related, subtask_of или blocked_by"))
    }
}

/// The media kind named by `value`, or the error that lists the names.
pub fn parse_source_media_kind(value: &str) -> (r: Result<SourceMediaKind, String>)
    ensures
        match r {
            Ok(k) => media_kind_name(k) == value@,
            Err(e) => e@ == msg_bad_media_kind() && forall|k: SourceMediaKind| media_kind_name(k) != value@,
        },
{
    let v = chars_of(value);
    if chars_is(&v, "photo") {
        Ok(SourceMediaKind::Photo)
    } else if chars_is(&v, "video") {
        Ok(SourceMediaKind::Video)
    } else if chars_is(&v, "document") {
        Ok(SourceMediaKind::Document)
    } else if chars_is(&v, "audio") {
        Ok(SourceMediaKind::Audio)
    } else if chars_is(&v, "voice") {
        Ok(SourceMediaKind::Voice)
    } else if chars_is(&v, "animation") {
        Ok(SourceMediaKind::Animation)
    } else if chars_is(&v, "other") {
        Ok(SourceMediaKind::Other)
    } else {
        proof {
            assert forall|k: SourceMediaKind| media_kind_name(k) != value@ by {
                match k {
                    SourceMediaKind::Photo => {},
                    SourceMediaKind::Video => {},
                    SourceMediaKind::Document => {},
                    SourceMediaKind::Audio => {},
                    SourceMediaKind::Voice => {},
                    SourceMediaKind::Animation => {},
                    SourceMediaKind::Other => {},
                }
            }
        }
        Err(String::from_str("media.kind должен быть photo, video, document, audio, voice, animation или other"))
    }
}

/// The sort rank of a status: open tasks first.
pub open spec fn status_rank(s: TaskStatus) -> u8 {
    match s {
        TaskStatus::Open => 0,
        TaskStatus::Completed => 1,
    }
}

/// The sort rank of an urgency: urgent first, then important, then normal.
pub open spec fn urgency_rank(u: Urgency) -> u8 {
    match u {
        Urgency::Urgent => 0,
        Urgency::Important => 1,
        Urgency::Normal => 2,
    }
}

/// The sort rank of a status: open tasks first.
pub fn task_status_rank(status: &TaskStatus) -> (r: u8)
    ensures
        r == status_rank(*status),
{
    match status {
        TaskStatus::Open => 0,
        TaskStatus::Completed => 1,
    }
}

/// The sort rank of an urgency: urgent first, then important, then normal.
pub fn task_urgency_rank(urgency: &Urgency) -> (r: u8)
    ensures
        r == urgency_rank(*urgency),
{
    match urgency {
        Urgency::Urgent => 0,
        Urgency::Important => 1,
        Urgency::Normal => 2,
    }
}

/// The resource URI segment of a material kind.
pub fn workspace_kind_uri_segment(kind: ProjectWorkspaceItemKind) -> (r: &'static str)
    ensures
        r@ == kind_segment(kind),
{
    match kind {
        ProjectWorkspaceItemKind::Document => "documents",
        ProjectWorkspaceItemKind::Rule => "rules",
        ProjectWorkspaceItemKind::Skill => "skills",
    }
}

/// The material kind of a resource URI segment, if it names one.
pub fn workspace_kind_from_uri(segment: &str) -> (r: Option<ProjectWorkspaceItemKind>)
    ensures
        match r {
            Some(k) => kind_segment(k) == segment@,
            None => forall|k: ProjectWorkspaceItemKind| kind_segment(k) != segment@,
        },
{
    let v = chars_of(segment);
    if chars_is(&v, "documents") {
        Some(ProjectWorkspaceItemKind::Document)
    } else if chars_is(&v, "rules") {
        Some(ProjectWorkspaceItemKind::Rule)
    } else if chars_is(&v, "skills") {
        Some(ProjectWorkspaceItemKind::Skill)
    } else {
        proof {
            assert forall|k: ProjectWorkspaceItemKind| kind_segment(k) != segment@ by {
                match k {
                    ProjectWorkspaceItemKind::Document => {},
                    ProjectWorkspaceItemKind::Rule => {},
                    ProjectWorkspaceItemKind::Skill => {},
                }
            }
        }
        None
    }
}

/// Law: the names of the urgencies, statuses, relations, media kinds and
/// material URI segments are pairwise distinct, so each parser above gives back
/// the value whose name it read.
pub proof fn lemma_names_are_distinct()
    ensures
        forall|a: Urgency, b: Urgency| urgency_name(a) == urgency_name(b) ==> a == b,
        forall|a: TaskStatus, b: TaskStatus| status_name(a) == status_name(b) ==> a == b,
        forall|a: TaskRelationKind, b: TaskRelationKind| relation_name(a) == relation_name(b) ==> a == b,
        forall|a: SourceMediaKind, b: SourceMediaKind| media_kind_name(a) == media_kind_name(b) ==> a == b,
        forall|a: ProjectWorkspaceItemKind, b: ProjectWorkspaceItemKind| kind_segment(a) == kind_segment(b) ==> a == b,
{
    reveal_strlit("normal");
    reveal_strlit("important");
    reveal_strlit("urgent");
    reveal_strlit("open");
    reveal_strlit("completed");
    reveal_strlit("related");
    reveal_strlit("subtask_of");
    reveal_strlit("blocked_by");
    reveal_strlit("photo");
    reveal_strlit("video");
    reveal_strlit("document");
    reveal_strlit("audio");
    reveal_strlit("voice");
    reveal_strlit("animation");
    reveal_strlit("other");
    reveal_strlit("documents");
    reveal_strlit("rules");
    reveal_strlit("skills");
    assert forall|a: Urgency, b: Urgency| urgency_name(a) == urgency_name(b) implies a == b by {
        if a != b {
            assert(urgency_name(a).len() != urgency_name(b).len() || urgency_name(a)[0] != urgency_name(b)[0]);
        }
    }
    assert forall|a: TaskStatus, b: TaskStatus| status_name(a) == status_name(b) implies a == b by {
        if a != b {
            assert(status_name(a).len() != status_name(b).len());
        }
    }
    assert forall|a: TaskRelationKind, b: TaskRelationKind| relation_name(a) == relation_name(b) implies a == b by {
        if a != b {
            assert(relation_name(a)[0] != relation_name(b)[0] || relation_name(a)[1] != relation_name(b)[1]);
        }
    }
    assert forall|a: SourceMediaKind, b: SourceMediaKind| media_kind_name(a) == media_kind_name(b) implies a == b by {
        if a != b {
            assert(media_kind_name(a).len() != media_kind_name(b).len() || media_kind_name(a)[0] != media_kind_name(b)[0] || media_kind_name(a)[1] != media_kind_name(b)[1]);
        }
    }
    assert forall|a: ProjectWorkspaceItemKind, b: ProjectWorkspaceItemKind| kind_segment(a) == kind_segment(b) implies a == b by {
        if a != b {
            assert(kind_segment(a)[0] != kind_segment(b)[0]);
        }
    }
}


/// Where an automation event stands.
#[derive(PartialEq, Eq, Structural, Clone, Copy, Debug)]
pub enum AutomationEventState {
    Pending,
    Processing,
    Processed,
    Failed,
}

pub open spec fn automation_state_filter(name: Seq<char>) -> Option<Option<AutomationEventState>> {
    if name == "pending"@ {
        Some(Some(AutomationEventState::Pending))
    } else if name == "processing"@ {
        Some(Some(AutomationEventState::Processing))
    } else if name == "processed"@ {
        Some(Some(AutomationEventState::Processed))
    } else if name == "failed"@ {
        Some(Some(AutomationEventState::Failed))
    } else if name == "all"@ {
        Some(None)
    } else {
        None
    }
}

pub open spec fn msg_bad_event_state() -> Seq<char> {
    "state должен быть pending, processing, processed, failed или all"@
}

/// The events that a listing asks for: those in the named state (`pending`
/// by default), or all of them for `all`.
pub fn parse_automation_state_filter(name: Option<&str>) -> (r: Result<Option<AutomationEventState>, String>)
    ensures
        ({
            let n = match name { Some(x) => x@, None => "pending"@ };
            match r {
                Ok(f) => automation_state_filter(n) == Some(f),
                Err(e) => automation_state_filter(n) is None && e@ == msg_bad_event_state(),
            }
        }),
{
    let v = match name {
        Some(x) => chars_of(x),
        None => chars_of("pending"),
    };
    if chars_is(&v, "pending") {
        Ok(Some(AutomationEventState::Pending))
    } else if chars_is(&v, "processing") {
        Ok(Some(AutomationEventState::Processing))
    } else if chars_is(&v, "processed") {
        Ok(Some(AutomationEventState::Processed))
    } else if chars_is(&v, "failed") {
        Ok(Some(AutomationEventState::Failed))
    } else if chars_is(&v, "all") {
        Ok(None)
    } else {
        Err(String::from_str("state должен быть pending, processing, processed, failed или all"))
    }
}

/// How an agent resolved an automation event.
#[derive(PartialEq, Eq, Structural, Clone, Copy, Debug)]
pub enum AutomationEventOutcome {
    TaskCreatedOrLinked,
    TaskUpdated,
    Duplicate,
    NoAction,
    NeedsData,
    AgentQueued,
}

pub open spec fn outcome_name(o: AutomationEventOutcome) -> Seq<char> {
    match o {
        AutomationEventOutcome::TaskCreatedOrLinked => "task_created_or_linked"@,
        AutomationEventOutcome::TaskUpdated => "task_updated"@,
        AutomationEventOutcome::Duplicate => "duplicate"@,
        AutomationEventOutcome::NoAction => "no_action"@,
        AutomationEventOutcome::NeedsData => "needs_data"@,
        AutomationEventOutcome::AgentQueued => "agent_queued"@,
    }
}

pub open spec fn msg_bad_outcome() -> Seq<char> {
    "outcome должен быть task_created_or_linked, task_updated, duplicate, no_action, needs_data или agent_queued"@
}

/// The outcome that an agent names, or the error that lists the names.
pub fn parse_automation_outcome(value: &str) -> (r: Result<AutomationEventOutcome, String>)
    ensures
        match r {
            Ok(o) => outcome_name(o) == value@,
            Err(e) => e@ == msg_bad_outcome() && forall|o: AutomationEventOutcome| outcome_name(o) != value@,
        },
{
    let v = chars_of(value);
    if chars_is(&v, "task_created_or_linked") {
        Ok(AutomationEventOutcome::TaskCreatedOrLinked)
    } else if chars_is(&v, "task_updated") {
        Ok(AutomationEventOutcome::TaskUpdated)
    } else if chars_is(&v, "duplicate") {
        Ok(AutomationEventOutcome::Duplicate)
    } else if chars_is(&v, "no_action") {
        Ok(AutomationEventOutcome::NoAction)
    } else if chars_is(&v, "needs_data") {
        Ok(AutomationEventOutcome::NeedsData)
    } else if chars_is(&v, "agent_queued") {
        Ok(AutomationEventOutcome::AgentQueued)
    } else {
        proof {
            assert forall|o: AutomationEventOutcome| outcome_name(o) != value@ by {
                match o {
                    AutomationEventOutcome::TaskCreatedOrLinked => {},
                    AutomationEventOutcome::TaskUpdated => {},
                    AutomationEventOutcome::Duplicate => {},
                    AutomationEventOutcome::NoAction => {},
                    AutomationEventOutcome::NeedsData => {},
                    AutomationEventOutcome::AgentQueued => {},
                }
            }
        }
        Err(String::from_str("outcome должен быть task_created_or_linked, task_updated, duplicate, no_action, needs_data или agent_queued"))
    }
}

} // verus!

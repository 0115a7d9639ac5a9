//! What an agent is shown of a Telegram triage candidate: a bounded summary
//! of its message and the discussion around it.
use vstd::prelude::*;

use crate::batch::SourceMedia;
use crate::chars::{chars_of, string_of};
use crate::text::{compact_search_text, spec_compact_search_text};

verus! {

/// The longest candidate text that a summary shows.
pub open spec fn max_candidate_text_chars() -> nat {
    2000
}

/// A candidate's text as a summary shows it: white space collapsed and cut
/// to 2000 characters; and whether the original was longer than that.
pub fn candidate_text_summary(text: &str) -> (r: (String, bool))
    ensures
        r.0@ == spec_compact_search_text(text@, max_candidate_text_chars()),
        r.1 == (text@.len() > max_candidate_text_chars()),
{
    let compact = compact_search_text(text, 2000);
    let n = chars_of(text).len();
    (compact, n > 2000)
}

/// How many messages a candidate's discussion holds: the saved context, or
/// the candidate's own message where none was saved.
pub fn context_message_count(context_len: usize) -> (r: usize)
    ensures
        r == if context_len >= 1 { context_len } else { 1 },
{
    if context_len >= 1 { context_len } else { 1 }
}

/// A message of a candidate's discussion. `sent_at` is seconds since the
/// epoch and nanoseconds.
pub struct TelegramContextMessage {
    pub message_id: i64,
    pub message_ids: Vec<i64>,
    pub author: String,
    pub sender_id: Option<String>,
    pub sender_username: Option<String>,
    pub is_outgoing: bool,
    pub sent_at: (i64, u32),
    pub text: String,
    pub url: Option<String>,
    pub reply_to_message_id: Option<i64>,
    pub is_target: bool,
    pub media: Vec<SourceMedia>,
}

/// The discussion shown with a candidate, with its size.
pub struct TelegramContextOutput {
    pub messages: Vec<TelegramContextMessage>,
    pub message_count: usize,
    pub media_count: usize,
    pub bounded: bool,
}

/// The number of media attachments of the messages.
pub open spec fn total_media(ms: Seq<TelegramContextMessage>) -> int
    decreases ms.len(),
{
    if ms.len() == 0 {
        0
    } else {
        total_media(ms.drop_last()) + ms.last().media@.len()
    }
}

/// The discussion of a candidate: its saved context, or, where none was
/// saved, the candidate's own message as the one target message; with the
/// number of messages and of their media attachments.
pub fn telegram_context_output(own_message: TelegramContextMessage, context: Vec<TelegramContextMessage>) -> (r: TelegramContextOutput)
    requires
        total_media(context@) <= usize::MAX,
    ensures
        r.messages@ == if context@.len() == 0 { seq![own_message] } else { context@ },
        r.message_count == r.messages@.len(),
        r.media_count == total_media(r.messages@),
        r.bounded,
{
    if context.len() == 0 {
        let media_count = own_message.media.len();
        let messages = vec![own_message];
        proof {
            assert(messages@.drop_last() =~= Seq::<TelegramContextMessage>::empty());
            assert(total_media(messages@.drop_last()) == 0);
            assert(messages@.last() == messages@[0]);
        }
        return TelegramContextOutput { messages, message_count: 1, media_count, bounded: true };
    }
    let messages = context;
    let mut media_count: usize = 0;
    let mut i: usize = 0;
    while i < messages.len()
        invariant
            i <= messages@.len(),
            media_count == total_media(messages@.take(i as int)),
            total_media(messages@) <= usize::MAX,
        decreases messages.len() - i,
    {
        assert(messages@.take(i + 1).drop_last() == messages@.take(i as int));
        proof {
            lemma_total_media_prefix(messages@, i as int + 1);
        }
        media_count = media_count + messages[i].media.len();
        i = i + 1;
    }
    assert(messages@.take(messages@.len() as int) == messages@);
    let n = messages.len();
    TelegramContextOutput { messages, message_count: n, media_count, bounded: true }
}

proof fn lemma_total_media_prefix(ms: Seq<TelegramContextMessage>, j: int)
    requires
        0 <= j <= ms.len(),
    ensures
        total_media(ms.take(j)) <= total_media(ms),
    decreases ms.len() - j,
{
    if j == ms.len() {
        assert(ms.take(j) == ms);
    } else {
        lemma_total_media_prefix(ms, j + 1);
        assert(ms.take(j + 1).drop_last() == ms.take(j));
    }
}


/// A project and the Telegram chats it links.
pub struct ProjectChatLinks {
    pub project_id: String,
    pub chat_ids: Vec<i64>,
}

/// How far the agent has read a chat.
pub struct AgentCheckpoint {
    pub chat_id: i64,
    pub last_read_message_id: i64,
}

/// What a chat listing says of one chat.
pub struct TelegramChatSummary {
    pub chat_id: i64,
    pub message_count: usize,
    pub oldest_message_id: Option<i64>,
    pub newest_message_id: Option<i64>,
    pub project_ids: Vec<String>,
    pub agent_checkpoint_message_id: Option<i64>,
    pub agent_unprocessed_count: Option<usize>,
}

/// The projects that link the chat, in order.
pub open spec fn linking_projects(links: Seq<ProjectChatLinks>, chat_id: i64) -> Seq<Seq<char>>
    decreases links.len(),
{
    if links.len() == 0 {
        Seq::empty()
    } else {
        let rest = linking_projects(links.drop_last(), chat_id);
        if links.last().chat_ids@.contains(chat_id) {
            rest.push(links.last().project_id@)
        } else {
            rest
        }
    }
}

/// The first checkpoint of the chat, if any.
pub open spec fn chat_checkpoint(cps: Seq<AgentCheckpoint>, chat_id: i64) -> Option<i64>
    decreases cps.len(),
{
    if cps.len() == 0 {
        None
    } else if cps[0].chat_id == chat_id {
        Some(cps[0].last_read_message_id)
    } else {
        chat_checkpoint(cps.drop_first(), chat_id)
    }
}

/// How many of the messages come after `last_read`.
pub open spec fn count_after(ids: Seq<i64>, last_read: i64) -> nat
    decreases ids.len(),
{
    if ids.len() == 0 {
        0
    } else {
        count_after(ids.drop_last(), last_read) + if ids.last() > last_read { 1nat } else { 0nat }
    }
}

proof fn lemma_count_after_bound(ids: Seq<i64>, last_read: i64)
    ensures
        count_after(ids, last_read) <= ids.len(),
    decreases ids.len(),
{
    if ids.len() > 0 {
        lemma_count_after_bound(ids.drop_last(), last_read);
    }
}

fn contains_id(v: &Vec<i64>, x: i64) -> (r: bool)
    ensures
        r == v@.contains(x),
{
    let mut i: usize = 0;
    while i < v.len()
        invariant
            i <= v@.len(),
            forall|k: int| 0 <= k < i ==> v@[k] != x,
        decreases v.len() - i,
    {
        if v[i] == x {
            assert(v@[i as int] == x);
            return true;
        }
        i = i + 1;
    }
    false
}

/// The summary of a chat whose synced messages have the ids `message_ids`
/// (oldest first): the projects that link it, the agent's checkpoint in it
/// and how many messages came after it; `None` when the listing is for a
/// project that does not link the chat.
pub fn telegram_chat_summary(
    chat_id: i64,
    message_ids: &Vec<i64>,
    links: &Vec<ProjectChatLinks>,
    checkpoints: &Vec<AgentCheckpoint>,
    for_project: Option<&str>,
) -> (r: Option<TelegramChatSummary>)
    ensures
        ({
            let projects = linking_projects(links@, chat_id);
            match r {
                None => for_project is Some && !projects.contains(for_project->0@),
                Some(s) => {
                    &&& (for_project is None || projects.contains(for_project->0@))
                    &&& s.chat_id == chat_id
                    &&& s.message_count == message_ids@.len()
                    &&& s.oldest_message_id == if message_ids@.len() > 0 { Some(message_ids@[0]) } else { None }
                    &&& s.newest_message_id == if message_ids@.len() > 0 { Some(message_ids@.last()) } else { None }
                    &&& crate::order::str_views(s.project_ids@) == projects
                    &&& s.agent_checkpoint_message_id == chat_checkpoint(checkpoints@, chat_id)
                    &&& s.agent_unprocessed_count == match chat_checkpoint(checkpoints@, chat_id) {
                        Some(last) => Some(count_after(message_ids@, last) as usize),
                        None => None,
                    }
                }
            }
        }),
{
    let mut project_ids: Vec<String> = Vec::new();
    let mut i: usize = 0;
    while i < links.len()
        invariant
            i <= links@.len(),
            crate::order::str_views(project_ids@) == linking_projects(links@.take(i as int), chat_id),
        decreases links.len() - i,
    {
        assert(links@.take(i + 1).drop_last() == links@.take(i as int));
        if contains_id(&links[i].chat_ids, chat_id) {
            let ghost before = project_ids@;
            project_ids.push(links[i].project_id.clone());
            assert(crate::order::str_views(project_ids@) == crate::order::str_views(before).push(links@[i as int].project_id@));
        }
        i = i + 1;
    }
    assert(links@.take(links@.len() as int) == links@);
    let ghost projects = linking_projects(links@, chat_id);
    match for_project {
        Some(p) => {
            let pc = chars_of(p);
            let mut found = false;
            let mut k: usize = 0;
            while k < project_ids.len()
                invariant
                    k <= project_ids@.len(),
                    crate::order::str_views(project_ids@) == projects,
                    pc@ == p@,
                    found == exists|t: int| 0 <= t < k && projects[t] == p@,
                decreases project_ids.len() - k,
            {
                assert(projects[k as int] == project_ids@[k as int]@);
                if crate::paths::chars_eq(&chars_of(project_ids[k].as_str()), &pc) {
                    found = true;
                }
                k = k + 1;
            }
            if !found {
                return None;
            }
        },
        None => {},
    }
    let mut checkpoint: Option<i64> = None;
    let mut j: usize = 0;
    assert(checkpoints@.skip(0) == checkpoints@);
    while j < checkpoints.len()
        invariant_except_break
            checkpoint is None,
            chat_checkpoint(checkpoints@.skip(j as int), chat_id) == chat_checkpoint(checkpoints@, chat_id),
        invariant
            j <= checkpoints@.len(),
        ensures
            checkpoint == chat_checkpoint(checkpoints@, chat_id),
        decreases checkpoints.len() - j,
    {
        assert(checkpoints@.skip(j as int)[0] == checkpoints@[j as int]);
        assert(checkpoints@.skip(j as int).drop_first() == checkpoints@.skip(j + 1));
        if checkpoints[j].chat_id == chat_id {
            checkpoint = Some(checkpoints[j].last_read_message_id);
            break;
        }
        j = j + 1;
    }
    let unprocessed = match checkpoint {
        Some(last) => {
            let mut count: usize = 0;
            let mut m: usize = 0;
            while m < message_ids.len()
                invariant
                    m <= message_ids@.len(),
                    count == count_after(message_ids@.take(m as int), last),
                    count <= m,
                decreases message_ids.len() - m,
            {
                assert(message_ids@.take(m + 1).drop_last() == message_ids@.take(m as int));
                if message_ids[m] > last {
                    count = count + 1;
                }
                m = m + 1;
            }
            assert(message_ids@.take(message_ids@.len() as int) == message_ids@);
            Some(count)
        },
        None => None,
    };
    let n = message_ids.len();
    Some(TelegramChatSummary {
        chat_id,
        message_count: n,
        oldest_message_id: if n > 0 { Some(message_ids[0]) } else { None },
        newest_message_id: if n > 0 { Some(message_ids[n - 1]) } else { None },
        project_ids,
        agent_checkpoint_message_id: checkpoint,
        agent_unprocessed_count: unprocessed,
    })
}


/// The role of a Telegram participant in a project.
pub struct ParticipantRole {
    pub sender_id: String,
    pub display_name: String,
    pub username: Option<String>,
    pub role: String,
    /// Whether an agent set the role (rather than the user in the app).
    pub set_by_agent: bool,
}

pub open spec fn msg_project_changed() -> Seq<char> {
    "project.md изменён; перечитайте проект и повторите изменение роли"@
}

pub open spec fn msg_bad_sender() -> Seq<char> {
    "sender_id должен быть взят из Telegram-контекста flood.md"@
}

/// A sender id of flood.md's Telegram context: `user:…` or `chat:…`.
pub open spec fn valid_sender(id: Seq<char>) -> bool {
    crate::paths::starts_with(id, "user:"@) || crate::paths::starts_with(id, "chat:"@)
}

/// Whether a participant is another sender than `sid`.
pub open spec fn other_sender(sid: Seq<char>) -> spec_fn(ParticipantRole) -> bool {
    |p: ParticipantRole| p.sender_id@ != sid
}

/// The participant roles after an agent sets the role of `sender_id`
/// (trimmed) to `role`: every other sender's role kept in order, and the new
/// role last unless it is blank, which removes the role. Refused when the
/// project changed since `expected_version` or the sender id is not one of
/// flood.md's.
pub fn participant_roles_after(
    current_version: &str,
    expected_version: &str,
    participants: Vec<ParticipantRole>,
    sender_id: &str,
    display_name: String,
    username: Option<String>,
    role: String,
) -> (r: Result<Vec<ParticipantRole>, String>)
    ensures
        ({
            let sid = crate::text::trim_ws(sender_id@);
            let kept = participants@.filter(other_sender(sid));
            match r {
                Err(e) => if current_version@ != expected_version@ {
                    e@ == msg_project_changed()
                } else {
                    !valid_sender(sid) && e@ == msg_bad_sender()
                },
                Ok(ps) => {
                    &&& current_version@ == expected_version@
                    &&& valid_sender(sid)
                    &&& forall|i: int| 0 <= i < ps@.len() && (#[trigger] ps@[i]).sender_id@ == sid
                        ==> i == ps@.len() - 1 && crate::text::trim_ws(role@).len() > 0
                    &&& if crate::text::trim_ws(role@).len() == 0 {
                        ps@ == kept
                    } else {
                        &&& ps@.len() == kept.len() + 1
                        &&& ps@.take(kept.len() as int) == kept
                        &&& ps@.last().sender_id@ == sid
                        &&& ps@.last().display_name == display_name
                        &&& ps@.last().username == username
                        &&& ps@.last().role == role
                        &&& ps@.last().set_by_agent
                    }
                }
            }
        }),
{
    if !crate::paths::chars_eq(&chars_of(current_version), &chars_of(expected_version)) {
        return Err(String::from_str("project.md изменён; перечитайте проект и повторите изменение роли"));
    }
    let sid = crate::text::trim_chars(&chars_of(sender_id));
    if !(crate::paths::chars_starts_with(&sid, &chars_of("user:")) || crate::paths::chars_starts_with(&sid, &chars_of("chat:"))) {
        return Err(String::from_str("sender_id должен быть взят из Telegram-контекста flood.md"));
    }
    let ghost pred = other_sender(sid@);
    let ghost orig = participants@;
    let n = participants.len();
    let mut rest = participants;
    let mut out: Vec<ParticipantRole> = Vec::new();
    let mut k: usize = 0;
    while rest.len() > 0
        invariant
            k + rest@.len() == orig.len(),
            rest@ == orig.skip(k as int),
            out@ == orig.take(k as int).filter(pred),
            pred == other_sender(sid@),
            n == orig.len(),
        decreases rest.len(),
    {
        let p = rest.remove(0);
        assert(p == orig[k as int]);
        assert(orig.take(k + 1).drop_last() == orig.take(k as int));
        assert(orig.take(k + 1).last() == p);
        proof {
            reveal_with_fuel(Seq::filter, 1);
        }
        if !crate::paths::chars_eq(&chars_of(p.sender_id.as_str()), &sid) {
            out.push(p);
        }
        k = k + 1;
        assert(rest@ == orig.skip(k as int));
    }
    assert(orig.take(orig.len() as int) == orig);
    let ghost kept = out@;
    proof {
        assert forall|i: int| 0 <= i < kept.len() implies (#[trigger] kept[i]).sender_id@ != sid@ by {
            orig.lemma_filter_pred(pred, i);
        }
    }
    if crate::text::trim_chars(&chars_of(role.as_str())).len() > 0 {
        out.push(ParticipantRole { sender_id: string_of(&sid), display_name, username, role, set_by_agent: true });
        assert(out@.take(kept.len() as int) == kept);
    }
    Ok(out)
}

/// What an agent may set a candidate's status to.
#[derive(PartialEq, Eq, Structural, Clone, Copy, Debug)]
pub enum CandidateStatusChoice {
    Pending,
    Dismissed,
}

pub open spec fn msg_bad_candidate_status() -> Seq<char> {
    "status должен быть pending или dismissed"@
}

/// The candidate status that an agent names: `pending` or `dismissed`.
pub fn parse_candidate_status(value: &str) -> (r: Result<CandidateStatusChoice, String>)
    ensures
        match r {
            Ok(CandidateStatusChoice::Pending) => value@ == "pending"@,
            Ok(CandidateStatusChoice::Dismissed) => value@ == "dismissed"@,
            Err(e) => value@ != "pending"@ && value@ != "dismissed"@ && e@ == msg_bad_candidate_status(),
        },
{
    let v = chars_of(value);
    if crate::paths::chars_is(&v, "pending") {
        Ok(CandidateStatusChoice::Pending)
    } else if crate::paths::chars_is(&v, "dismissed") {
        Ok(CandidateStatusChoice::Dismissed)
    } else {
        Err(String::from_str("status должен быть pending или dismissed"))
    }
}


/// Where a request for a Telegram image stands.
#[derive(PartialEq, Eq, Structural, Clone, Copy, Debug)]
pub enum MediaRequestState {
    Pending,
    Ready,
    Failed,
}

pub open spec fn msg_image_failed() -> Seq<char> {
    "Не удалось подготовить изображение Telegram"@
}

pub open spec fn msg_image_pending() -> Seq<char> {
    "Изображение ещё готовится; проверьте get_telegram_media_request"@
}

/// Whether a requested image can be read now: a failed request reports its
/// error (or a general one), one still in preparation says so.
pub fn media_request_readiness(state: MediaRequestState, error: Option<String>) -> (r: Result<(), String>)
    ensures
        match r {
            Ok(()) => state == MediaRequestState::Ready,
            Err(e) => if state == MediaRequestState::Failed {
                match error {
                    Some(x) => e == x,
                    None => e@ == msg_image_failed(),
                }
            } else {
                state == MediaRequestState::Pending && e@ == msg_image_pending()
            },
        },
{
    match state {
        MediaRequestState::Failed => match error {
            Some(x) => Err(x),
            None => Err(String::from_str("Не удалось подготовить изображение Telegram")),
        },
        MediaRequestState::Pending => Err(String::from_str("Изображение ещё готовится; проверьте get_telegram_media_request")),
        MediaRequestState::Ready => Ok(()),
    }
}


/// What a task saved of its Telegram source, for when the live cache
/// cannot be read.
pub struct SavedTelegramSource {
    pub message_id: i64,
    pub message_ids: Vec<i64>,
    pub author: Option<String>,
    pub sent_at: Option<(i64, u32)>,
    pub text: String,
    pub url: Option<String>,
    pub chat_title: Option<String>,
    pub media: Vec<SourceMedia>,
    pub context: Vec<TelegramContextMessage>,
}

/// The discussion a work context shows from a saved snapshot.
pub struct SavedTelegramContext {
    pub chat_title: String,
    pub messages: Vec<TelegramContextMessage>,
    pub media_count: usize,
    pub warning: String,
}

/// Whether a saved message is the task's source message.
pub open spec fn is_source_message(m: TelegramContextMessage, message_id: i64) -> bool {
    m.message_id == message_id || m.message_ids@.contains(message_id)
}

/// `m` with only its target mark changed.
pub open spec fn same_but_target(a: TelegramContextMessage, b: TelegramContextMessage) -> bool {
    &&& a.message_id == b.message_id
    &&& a.message_ids@ == b.message_ids@
    &&& a.author == b.author
    &&& a.sender_id == b.sender_id
    &&& a.sender_username == b.sender_username
    &&& a.is_outgoing == b.is_outgoing
    &&& a.sent_at == b.sent_at
    &&& a.text == b.text
    &&& a.url == b.url
    &&& a.reply_to_message_id == b.reply_to_message_id
    &&& a.media@ == b.media@
}

pub open spec fn msg_unknown_author() -> Seq<char> {
    "Неизвестный автор"@
}

pub open spec fn saved_warning(error: Seq<char>) -> Seq<char> {
    "Актуальный локальный контекст недоступен; используется сохранённый снимок задачи: "@ + error
}

/// The discussion of a task's saved Telegram source, shown when the live
/// cache failed with `error`: the saved discussion with the source message
/// marked as the target, or, where none was saved, the source message
/// itself (author unknown when not saved, sent when the task was created
/// when the time was not saved); with the number of media attachments, the
/// chat's title (`Telegram` when not saved) and a warning that names the
/// error.
pub fn saved_telegram_context(source: SavedTelegramSource, task_created_at: (i64, u32), error: &str) -> (r: SavedTelegramContext)
    requires
        total_media(source.context@) <= usize::MAX,
    ensures
        r.chat_title@ == match source.chat_title { Some(t) => t@, None => "Telegram"@ },
        r.warning@ == saved_warning(error@),
        r.media_count == total_media(r.messages@),
        if source.context@.len() == 0 {
            &&& r.messages@.len() == 1
            &&& r.messages@[0].message_id == source.message_id
            &&& r.messages@[0].message_ids@ == if source.message_ids@.len() == 0 { seq![source.message_id] } else { source.message_ids@ }
            &&& r.messages@[0].author@ == match source.author { Some(a) => a@, None => msg_unknown_author() }
            &&& r.messages@[0].sender_id is None && r.messages@[0].sender_username is None
            &&& !r.messages@[0].is_outgoing
            &&& r.messages@[0].sent_at == match source.sent_at { Some(t) => t, None => task_created_at }
            &&& r.messages@[0].text == source.text
            &&& r.messages@[0].url == source.url
            &&& r.messages@[0].reply_to_message_id is None
            &&& r.messages@[0].is_target
            &&& r.messages@[0].media@ == source.media@
        } else {
            &&& r.messages@.len() == source.context@.len()
            &&& forall|i: int| 0 <= i < r.messages@.len() ==> {
                &&& same_but_target(#[trigger] r.messages@[i], source.context@[i])
                &&& r.messages@[i].is_target == is_source_message(source.context@[i], source.message_id)
            }
        },
{
    let SavedTelegramSource { message_id, message_ids, author, sent_at, text, url, chat_title, media, context } = source;
    let title = match chat_title {
        Some(t) => t,
        None => String::from_str("Telegram"),
    };
    let mut w: Vec<char> = Vec::new();
    crate::text::push_str_chars(&mut w, "Актуальный локальный контекст недоступен; используется сохранённый снимок задачи: ");
    crate::text::push_str_chars(&mut w, error);
    let warning = string_of(&w);
    if context.len() == 0 {
        let ids = if message_ids.len() == 0 { vec![message_id] } else { message_ids };
        let author_text = match author {
            Some(a) => a,
            None => String::from_str("Неизвестный автор"),
        };
        let media_count = media.len();
        let message = TelegramContextMessage {
            message_id,
            message_ids: ids,
            author: author_text,
            sender_id: None,
            sender_username: None,
            is_outgoing: false,
            sent_at: match sent_at {
                Some(t) => t,
                None => task_created_at,
            },
            text,
            url,
            reply_to_message_id: None,
            is_target: true,
            media,
        };
        let messages = vec![message];
        proof {
            assert(messages@.drop_last() =~= Seq::<TelegramContextMessage>::empty());
            assert(total_media(messages@.drop_last()) == 0);
            assert(messages@.last() == messages@[0]);
        }
        return SavedTelegramContext { chat_title: title, messages, media_count, warning };
    }
    let ghost orig = context@;
    let mut rest = context;
    let mut messages: Vec<TelegramContextMessage> = Vec::new();
    let mut media_count: usize = 0;
    while rest.len() > 0
        invariant
            messages@.len() + rest@.len() == orig.len(),
            rest@ == orig.skip(messages@.len() as int),
            total_media(orig) <= usize::MAX,
            media_count == total_media(messages@),
            total_media(messages@) == total_media(orig.take(messages@.len() as int)),
            forall|i: int| 0 <= i < messages@.len() ==> {
                &&& same_but_target(#[trigger] messages@[i], orig[i])
                &&& messages@[i].is_target == is_source_message(orig[i], message_id)
            },
        decreases rest.len(),
    {
        let ghost k = messages@.len() as int;
        let mut m = rest.remove(0);
        assert(m == orig[k]);
        let hit = m.message_id == message_id || contains_id(&m.message_ids, message_id);
        m.is_target = hit;
        proof {
            lemma_total_media_prefix(orig, k + 1);
            assert(orig.take(k + 1).drop_last() == orig.take(k));
            assert(orig.take(k + 1).last() == orig[k]);
        }
        let n = m.media.len();
        let ghost before = messages@;
        messages.push(m);
        assert(messages@.drop_last() == before);
        media_count = media_count + n;
        assert(rest@ == orig.skip(k + 1));
    }
    proof {
        assert(messages@.len() == orig.len());
    }
    SavedTelegramContext { chat_title: title, messages, media_count, warning }
}

/// How many messages before and after the source a work context reads: 3
/// by default, at most 10.
pub fn context_window(before: Option<usize>, after: Option<usize>) -> (r: (usize, usize))
    ensures
        r.0 == match before { Some(b) => if b < 10 { b } else { 10 }, None => 3 },
        r.1 == match after { Some(a) => if a < 10 { a } else { 10 }, None => 3 },
{
    let b = match before {
        Some(b) => if b < 10 { b } else { 10 },
        None => 3,
    };
    let a = match after {
        Some(a) => if a < 10 { a } else { 10 },
        None => 3,
    };
    (b, a)
}

} // verus!

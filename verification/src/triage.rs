use vstd::prelude::*;
use vstd::utf8::encode_utf8;

use crate::chars::{chars_of, string_of};
use crate::decimal::{decimal_digits, to_decimal};
use crate::hashing::{hex_lower, push_utf8, sha256, sha256_hex};
use crate::paths::chars_is;
use crate::text::{push_chars, push_str_chars, trim_chars, trim_ws};
use crate::vocab::{parse_urgency, urgency_name, Urgency};

verus! {

pub open spec fn opt_chars(o: Option<&str>) -> Option<Seq<char>> {
    match o {
        Some(s) => Some(s@),
        None => None,
    }
}

pub open spec fn opt_string(o: Option<String>) -> Option<Seq<char>> {
    match o {
        Some(s) => Some(s@),
        None => None,
    }
}

/// Optional text trimmed, and absent when nothing is left.
pub open spec fn spec_nonblank(o: Option<Seq<char>>) -> Option<Seq<char>> {
    match o {
        Some(s) => if trim_ws(s).len() > 0 {
            Some(trim_ws(s))
        } else {
            None
        },
        None => None,
    }
}

/// Optional text trimmed, and absent when nothing is left.
pub fn nonblank(o: Option<&str>) -> (r: Option<String>)
    ensures
        opt_string(r) == spec_nonblank(opt_chars(o)),
{
    match o {
        Some(s) => {
            let t = trim_chars(&chars_of(s));
            if t.len() > 0 {
                Some(string_of(&t))
            } else {
                None
            }
        },
        None => None,
    }
}

pub open spec fn msg_empty_title() -> Seq<char> {
    "title не может быть пустым"@
}

/// The Markdown description of a task: given as is, or written from a title
/// heading and optional notes.
pub open spec fn spec_task_description(
    title: Option<Seq<char>>,
    notes: Option<Seq<char>>,
    description: Option<Seq<char>>,
) -> Result<Option<Seq<char>>, Seq<char>> {
    match description {
        Some(d) => Ok(Some(d)),
        None => match title {
            None => Ok(None),
            Some(t) => {
                let t = trim_ws(t);
                if t.len() == 0 {
                    Err(msg_empty_title())
                } else {
                    match spec_nonblank(notes) {
                        Some(n) => Ok(Some("# "@ + t + "\n\n"@ + n)),
                        None => Ok(Some("# "@ + t)),
                    }
                }
            },
        },
    }
}

/// The Markdown description of a task: `description` as given, or a title
/// heading followed by the notes when they are not blank.
pub fn task_description(
    title: Option<&str>,
    notes: Option<&str>,
    description: Option<&str>,
) -> (r: Result<Option<String>, String>)
    ensures
        match (r, spec_task_description(opt_chars(title), opt_chars(notes), opt_chars(description))) {
            (Ok(a), Ok(b)) => opt_string(a) == b,
            (Err(a), Err(b)) => a@ == b,
            _ => false,
        },
{
    match description {
        Some(d) => Ok(Some(d.to_string())),
        None => match title {
            None => Ok(None),
            Some(t) => {
                let t = trim_chars(&chars_of(t));
                if t.len() == 0 {
                    return Err(String::from_str("title не может быть пустым"));
                }
                let mut v: Vec<char> = Vec::new();
                push_str_chars(&mut v, "# ");
                push_chars(&mut v, &t);
                match nonblank(notes) {
                    Some(n) => {
                        push_str_chars(&mut v, "\n\n");
                        push_str_chars(&mut v, n.as_str());
                    },
                    None => {},
                }
                Ok(Some(string_of(&v)))
            },
        },
    }
}

/// Where a Telegram candidate stands in the inbox.
#[derive(PartialEq, Eq, Structural, Clone, Copy, Debug)]
pub enum CandidateStatus {
    Pending,
    Imported,
    Dismissed,
}

/// What the triage plan reads of a candidate.
pub struct CandidateFacts {
    pub status: CandidateStatus,
    pub media_count: usize,
    /// Whether the task it was imported into still exists.
    pub has_linked_task: bool,
}

/// The verdict on one triage decision.
pub struct TriageCheck {
    pub error: Option<String>,
    pub warning: Option<String>,
    /// The urgency of the task to create, once it parsed.
    pub urgency: Option<Urgency>,
}

pub open spec fn msg_media_pending(n: nat) -> Seq<char> {
    "медиафайлов "@ + decimal_digits(n) + ": desktop скачает их сейчас или при следующем запуске"@
}

pub open spec fn urgency_of(text: Seq<char>) -> Option<Urgency> {
    if text == urgency_name(Urgency::Normal) {
        Some(Urgency::Normal)
    } else if text == urgency_name(Urgency::Important) {
        Some(Urgency::Important)
    } else if text == urgency_name(Urgency::Urgent) {
        Some(Urgency::Urgent)
    } else {
        None
    }
}

/// The checks of a `create_task` decision on its own fields, before the
/// candidate's status is looked at.
pub open spec fn create_fields_check(
    title: Option<Seq<char>>,
    notes: Option<Seq<char>>,
    urgency_text: Seq<char>,
) -> (Option<Seq<char>>, Option<Urgency>) {
    match title {
        None => (Some("title обязателен для action=create_task"@), None),
        Some(t) => if t.len() > 120 {
            (Some("title не должен превышать 120 символов"@), None)
        } else {
            match urgency_of(urgency_text) {
                None => (Some(crate::vocab::msg_bad_urgency()), None),
                Some(u) => match spec_task_description(Some(t), notes, None) {
                    Ok(Some(d)) => if d.len() > 20_000 {
                        (Some("title и notes вместе не должны превышать 20000 символов"@), Some(u))
                    } else {
                        (None, Some(u))
                    },
                    Ok(None) => (None, Some(u)),
                    Err(e) => (Some(e), Some(u)),
                },
            }
        },
    }
}

/// The verdict on a triage decision for a candidate, as error, warning and
/// urgency. A create decision on a candidate that is not pending is refused
/// unless it was imported and its task still exists.
pub open spec fn spec_triage_check(
    action: Seq<char>,
    title: Option<Seq<char>>,
    notes: Option<Seq<char>>,
    urgency_text: Seq<char>,
    c: CandidateFacts,
) -> (Option<Seq<char>>, Option<Seq<char>>, Option<Urgency>) {
    if action == "create_task"@ {
        let (err, urgency) = create_fields_check(title, notes, urgency_text);
        match c.status {
            CandidateStatus::Pending => (
                err,
                if c.media_count > 0 { Some(msg_media_pending(c.media_count as nat)) } else { None },
                urgency,
            ),
            CandidateStatus::Imported => if c.has_linked_task {
                (err, Some("задача уже существует; применение вернёт её без дубля"@), urgency)
            } else {
                (Some("кандидат отмечен импортированным, но связанная задача недоступна"@), None, urgency)
            },
            CandidateStatus::Dismissed => (
                Some("кандидат пропущен; сначала верните его во входящие"@),
                None,
                urgency,
            ),
        }
    } else if action == "dismiss"@ {
        match c.status {
            CandidateStatus::Imported => (
                Some("импортированный кандидат нельзя пропустить: задача уже существует"@),
                None,
                None,
            ),
            CandidateStatus::Dismissed => (None, Some("кандидат уже пропущен; действие идемпотентно"@), None),
            CandidateStatus::Pending => (None, None, None),
        }
    } else if action == "keep"@ {
        if c.status != CandidateStatus::Pending {
            (Some("оставить можно только необработанный кандидат"@), None, None)
        } else {
            (None, None, None)
        }
    } else {
        (Some("action должен быть create_task, dismiss или keep"@), None, None)
    }
}

fn media_warning(n: usize) -> (r: String)
    ensures
        r@ == msg_media_pending(n as nat),
{
    let mut v: Vec<char> = Vec::new();
    push_str_chars(&mut v, "медиафайлов ");
    let d = to_decimal(n);
    push_chars(&mut v, &d);
    push_str_chars(&mut v, ": desktop скачает их сейчас или при следующем запуске");
    string_of(&v)
}

fn create_fields(title: &Option<String>, notes: &Option<String>, urgency_text: &str) -> (r: (
    Option<String>,
    Option<Urgency>,
))
    ensures
        ({
            let (e, u) = create_fields_check(opt_string(*title), opt_string(*notes), urgency_text@);
            opt_string(r.0) == e && r.1 == u
        }),
{
    match title {
        None => (Some(String::from_str("title обязателен для action=create_task")), None),
        Some(t) => {
            if chars_of(t.as_str()).len() > 120 {
                return (Some(String::from_str("title не должен превышать 120 символов")), None);
            }
            match parse_urgency(urgency_text) {
                Err(e) => {
                    proof {
                        assert(urgency_of(urgency_text@) is None);
                    }
                    (Some(e), None)
                },
                Ok(u) => {
                    proof {
                        crate::vocab::lemma_names_are_distinct();
                        assert(urgency_of(urgency_text@) == Some(u));
                    }
                    let notes_str: Option<&str> = match notes {
                        Some(n) => Some(n.as_str()),
                        None => None,
                    };
                    match task_description(Some(t.as_str()), notes_str, None) {
                        Ok(Some(d)) => {
                            if chars_of(d.as_str()).len() > 20_000 {
                                (Some(String::from_str("title и notes вместе не должны превышать 20000 символов")), Some(u))
                            } else {
                                (None, Some(u))
                            }
                        },
                        Ok(None) => (None, Some(u)),
                        Err(e) => (Some(e), Some(u)),
                    }
                },
            }
        },
    }
}

/// The verdict on one triage decision for a candidate: `create_task` needs a
/// title of at most 120 characters and a known urgency, and a candidate that
/// is still pending or whose task still exists; `dismiss` refuses an
/// imported candidate; `keep` needs a pending one.
pub fn check_triage_decision(
    action: &str,
    title: &Option<String>,
    notes: &Option<String>,
    urgency_text: &str,
    candidate: &CandidateFacts,
) -> (r: TriageCheck)
    ensures
        ({
            let (e, w, u) = spec_triage_check(action@, opt_string(*title), opt_string(*notes), urgency_text@, *candidate);
            opt_string(r.error) == e && opt_string(r.warning) == w && r.urgency == u
        }),
{
    let a = chars_of(action);
    if chars_is(&a, "create_task") {
        let (err, urgency) = create_fields(title, notes, urgency_text);
        match candidate.status {
            CandidateStatus::Pending => {
                let warning = if candidate.media_count > 0 {
                    Some(media_warning(candidate.media_count))
                } else {
                    None
                };
                TriageCheck { error: err, warning, urgency }
            },
            CandidateStatus::Imported => {
                if candidate.has_linked_task {
                    TriageCheck {
                        error: err,
                        warning: Some(String::from_str("задача уже существует; применение вернёт её без дубля")),
                        urgency,
                    }
                } else {
                    TriageCheck {
                        error: Some(String::from_str("кандидат отмечен импортированным, но связанная задача недоступна")),
                        warning: None,
                        urgency,
                    }
                }
            },
            CandidateStatus::Dismissed => TriageCheck {
                error: Some(String::from_str("кандидат пропущен; сначала верните его во входящие")),
                warning: None,
                urgency,
            },
        }
    } else if chars_is(&a, "dismiss") {
        match candidate.status {
            CandidateStatus::Imported => TriageCheck {
                error: Some(String::from_str("импортированный кандидат нельзя пропустить: задача уже существует")),
                warning: None,
                urgency: None,
            },
            CandidateStatus::Dismissed => TriageCheck {
                error: None,
                warning: Some(String::from_str("кандидат уже пропущен; действие идемпотентно")),
                urgency: None,
            },
            CandidateStatus::Pending => TriageCheck { error: None, warning: None, urgency: None },
        }
    } else if chars_is(&a, "keep") {
        if candidate.status != CandidateStatus::Pending {
            TriageCheck {
                error: Some(String::from_str("оставить можно только необработанный кандидат")),
                warning: None,
                urgency: None,
            }
        } else {
            TriageCheck { error: None, warning: None, urgency: None }
        }
    } else {
        TriageCheck {
            error: Some(String::from_str("action должен быть create_task, dismiss или keep")),
            warning: None,
            urgency: None,
        }
    }
}

pub open spec fn msg_repeated_candidate() -> Seq<char> {
    "один кандидат нельзя обработать дважды в одном плане"@
}

pub open spec fn msg_candidate_unreadable(e: Seq<char>) -> Seq<char> {
    "не удалось прочитать Telegram-кандидат: "@ + e
}

/// The verdict on a triage decision in a plan: a candidate decided twice is
/// refused, one that could not be read is refused with the reason, and the
/// rest go by `spec_triage_check`.
pub fn triage_item_verdict(
    repeated: bool,
    lookup: &Result<CandidateFacts, String>,
    action: &str,
    title: &Option<String>,
    notes: &Option<String>,
    urgency_text: &str,
) -> (r: TriageCheck)
    ensures
        repeated ==> opt_string(r.error) == Some(msg_repeated_candidate()) && r.warning is None
            && r.urgency is None,
        !repeated ==> match lookup {
            Err(e) => opt_string(r.error) == Some(msg_candidate_unreadable(e@)) && r.warning is None
                && r.urgency is None,
            Ok(c) => {
                let (e, w, u) = spec_triage_check(action@, opt_string(*title), opt_string(*notes), urgency_text@, *c);
                opt_string(r.error) == e && opt_string(r.warning) == w && r.urgency == u
            },
        },
{
    if repeated {
        return TriageCheck {
            error: Some(String::from_str("один кандидат нельзя обработать дважды в одном плане")),
            warning: None,
            urgency: None,
        };
    }
    match lookup {
        Err(e) => {
            let mut v: Vec<char> = Vec::new();
            push_str_chars(&mut v, "не удалось прочитать Telegram-кандидат: ");
            push_str_chars(&mut v, e.as_str());
            TriageCheck { error: Some(string_of(&v)), warning: None, urgency: None }
        },
        Ok(c) => check_triage_decision(action, title, notes, urgency_text, c),
    }
}

/// The tallies of a triage plan.
#[derive(Clone, Copy)]
pub struct TriageCounts {
    pub creates: usize,
    pub dismisses: usize,
    pub keeps: usize,
    pub invalid: usize,
}

/// A triage plan being assembled, decision by decision.
pub struct TriagePlanner {
    /// Candidate ids decided so far, in increasing order.
    seen: Vec<String>,
    counts: TriageCounts,
    decided: Ghost<nat>,
}

pub open spec fn msg_triage_batch() -> Seq<char> {
    "передайте от 1 до 25 решений"@
}

impl TriagePlanner {
    pub closed spec fn seen_ids(&self) -> Set<Seq<char>> {
        crate::order::str_views(self.seen@).to_set()
    }

    /// How many decisions were recorded.
    pub closed spec fn recorded(&self) -> nat {
        self.decided@
    }

    pub closed spec fn tally(&self) -> TriageCounts {
        self.counts
    }

    /// The tallies so far.
    pub fn counts(&self) -> (r: TriageCounts)
        ensures
            r == self.tally(),
    {
        self.counts
    }

    pub closed spec fn wf(&self) -> bool {
        &&& crate::order::strictly_sorted(crate::order::str_views(self.seen@))
        &&& self.counts.creates + self.counts.dismisses + self.counts.keeps + self.counts.invalid
            == self.decided@
        &&& self.decided@ <= 25
    }

    /// A plan of `decisions` decisions: from 1 to 25.
    pub fn new(decisions: usize) -> (r: Result<Self, String>)
        ensures
            r is Ok <==> 1 <= decisions <= 25,
            match r {
                Ok(p) => p.wf() && p.seen_ids() == Set::<Seq<char>>::empty() && p.recorded() == 0
                    && p.tally().creates == 0 && p.tally().dismisses == 0 && p.tally().keeps == 0
                    && p.tally().invalid == 0,
                Err(e) => e@ == msg_triage_batch(),
            },
    {
        if decisions == 0 || decisions > 25 {
            return Err(String::from_str("передайте от 1 до 25 решений"));
        }
        let p = TriagePlanner {
            seen: Vec::new(),
            counts: TriageCounts { creates: 0, dismisses: 0, keeps: 0, invalid: 0 },
            decided: Ghost(0),
        };
        assert(crate::order::str_views(p.seen@) =~= Seq::<Seq<char>>::empty());
        Ok(p)
    }

    /// Whether the candidate was already decided in this plan; it counts as
    /// decided from now on.
    pub fn is_repeat(&mut self, candidate_id: &str) -> (r: bool)
        requires
            old(self).wf(),
        ensures
            final(self).wf(),
            r == old(self).seen_ids().contains(candidate_id@),
            final(self).seen_ids() == old(self).seen_ids().insert(candidate_id@),
            final(self).tally() == old(self).tally(),
            final(self).recorded() == old(self).recorded(),
    {
        let id = candidate_id.to_string();
        let was = crate::context::contains_string(&self.seen, &id);
        let ghost before = crate::order::str_views(self.seen@);
        crate::order::insert_sorted_unique(&mut self.seen, id);
        proof {
            let after = crate::order::str_views(self.seen@);
            assert(after.to_set() =~= before.to_set().insert(candidate_id@)) by {
                assert forall|y: Seq<char>| after.to_set().contains(y) <==> before.to_set().insert(candidate_id@).contains(y) by {
                    assert(after.to_set().contains(y) <==> after.contains(y));
                    assert(before.to_set().contains(y) <==> before.contains(y));
                }
            }
            assert(before.to_set().contains(candidate_id@) <==> before.contains(candidate_id@));
        }
        was
    }

    /// Counts one decision: by its action when it is ready, as invalid when
    /// not. Only a decision with one of the three actions is ever ready.
    pub fn record(&mut self, action: &str, ready: bool)
        requires
            old(self).wf(),
            old(self).recorded() < 25,
            ready ==> action@ == "create_task"@ || action@ == "dismiss"@ || action@ == "keep"@,
        ensures
            final(self).wf(),
            final(self).seen_ids() == old(self).seen_ids(),
            final(self).recorded() == old(self).recorded() + 1,
            final(self).tally().creates == old(self).tally().creates + if ready && action@ == "create_task"@ { 1int } else { 0int },
            final(self).tally().dismisses == old(self).tally().dismisses + if ready && action@ == "dismiss"@ { 1int } else { 0int },
            final(self).tally().keeps == old(self).tally().keeps + if ready && action@ == "keep"@ { 1int } else { 0int },
            final(self).tally().invalid == old(self).tally().invalid + if ready { 0int } else { 1int },
    {
        proof {
            reveal_strlit("create_task");
            reveal_strlit("dismiss");
            reveal_strlit("keep");
            assert("create_task"@.len() == 11);
            assert("dismiss"@.len() == 7);
            assert("keep"@.len() == 4);
        }
        let a = chars_of(action);
        if ready {
            if chars_is(&a, "create_task") {
                self.counts.creates = self.counts.creates + 1;
            } else if chars_is(&a, "dismiss") {
                self.counts.dismisses = self.counts.dismisses + 1;
            } else if chars_is(&a, "keep") {
                self.counts.keeps = self.counts.keeps + 1;
            }
        } else {
            self.counts.invalid = self.counts.invalid + 1;
        }
        self.decided = Ghost(self.decided@ + 1);
    }
}

/// The ids in increasing order, each once (`sort_unstable` then `dedup`).
pub fn sorted_unique_ids(ids: &Vec<i64>) -> (r: Vec<i64>)
    ensures
        forall|a: int, b: int| 0 <= a < b < r@.len() ==> r@[a] < r@[b],
        forall|x: i64| r@.contains(x) <==> ids@.contains(x),
{
    let mut out: Vec<i64> = Vec::new();
    let mut i: usize = 0;
    while i < ids.len()
        invariant
            i <= ids@.len(),
            forall|a: int, b: int| 0 <= a < b < out@.len() ==> out@[a] < out@[b],
            forall|x: i64| out@.contains(x) <==> ids@.take(i as int).contains(x),
        decreases ids.len() - i,
    {
        let x = ids[i];
        let ghost s = out@;
        let mut p: usize = 0;
        while p < out.len() && out[p] < x
            invariant
                p <= out@.len(),
                out@ == s,
                forall|k: int| 0 <= k < p ==> out@[k] < x,
            decreases out.len() - p,
        {
            p = p + 1;
        }
        if p < out.len() && out[p] == x {
        } else {
            out.insert(p, x);
            proof {
                let t = out@;
                assert(t == s.insert(p as int, x));
                assert forall|a: int, b: int| 0 <= a < b < t.len() implies t[a] < t[b] by {
                    if b < p {
                    } else if b == p {
                    } else if a < p {
                        assert(s[b - 1] > x || s[b - 1] >= s[p as int]);
                    } else if a == p {
                        assert(s[p as int] > x);
                        if b - 1 > p {
                            assert(s[p as int] < s[b - 1]);
                        }
                    } else {
                    }
                }
            }
        }
        proof {
            let pre = ids@.take(i as int);
            let post = ids@.take(i + 1);
            assert(post == pre.push(x));
            let inserted = out@ != s;
            assert(inserted ==> out@ == s.insert(p as int, x));
            assert(!inserted ==> s.contains(x)) by {
                if !inserted {
                    assert(s[p as int] == x);
                }
            }
            assert forall|y: i64| out@.contains(y) <==> post.contains(y) by {
                if out@.contains(y) {
                    let k = choose|k: int| 0 <= k < out@.len() && out@[k] == y;
                    if y != x {
                        if !inserted || k < p {
                            assert(s[k] == y);
                        } else {
                            assert(s[k - 1] == y);
                        }
                        assert(s.contains(y));
                        assert(pre.contains(y));
                        let j = choose|j: int| 0 <= j < pre.len() && pre[j] == y;
                        assert(post[j] == y);
                    } else {
                        assert(post[i as int] == y);
                    }
                }
                if post.contains(y) {
                    let j = choose|j: int| 0 <= j < post.len() && post[j] == y;
                    if j < i {
                        assert(pre[j] == y);
                        assert(s.contains(y));
                        let k = choose|k: int| 0 <= k < s.len() && s[k] == y;
                        if !inserted || k < p {
                            assert(out@[k] == y);
                        } else {
                            assert(out@[k + 1] == y);
                        }
                    } else if inserted {
                        assert(out@[p as int] == y);
                    } else {
                        let k = choose|k: int| 0 <= k < s.len() && s[k] == y;
                        assert(out@[k] == y);
                    }
                }
            }
        }
        i = i + 1;
    }
    assert(ids@.take(ids@.len() as int) == ids@);
    out
}

pub open spec fn msg_proposal_batch() -> Seq<char> {
    "передайте от 1 до 12 предлагаемых задач"@
}

pub open spec fn msg_repeated_request() -> Seq<char> {
    "request_id нельзя повторять внутри одного плана"@
}

pub open spec fn msg_request_length() -> Seq<char> {
    "request_id должен содержать от 1 до 200 символов"@
}

pub open spec fn msg_title_length() -> Seq<char> {
    "title должен содержать от 1 до 120 символов"@
}

pub open spec fn msg_context_ids() -> Seq<char> {
    "context_message_ids может содержать не более 20 ID"@
}

pub open spec fn msg_description_length() -> Seq<char> {
    "title и notes вместе не должны превышать 20000 символов"@
}

pub open spec fn msg_overlapping_messages() -> Seq<char> {
    "предлагаемые задачи используют пересекающиеся сообщения Telegram"@
}

/// The checks of a task proposal on its own fields, in order: a repeated
/// request id, its length, the title's length, the number of context
/// messages, the urgency and the description's length.
pub open spec fn spec_proposal_check(
    repeated: bool,
    request_id: Seq<char>,
    title: Seq<char>,
    notes: Option<Seq<char>>,
    urgency_text: Seq<char>,
    context_ids: nat,
) -> (Option<Seq<char>>, Option<Urgency>) {
    if repeated {
        (Some(msg_repeated_request()), None)
    } else if request_id.len() == 0 || request_id.len() > 200 {
        (Some(msg_request_length()), None)
    } else if title.len() == 0 || title.len() > 120 {
        (Some(msg_title_length()), None)
    } else if context_ids > 20 {
        (Some(msg_context_ids()), None)
    } else {
        match urgency_of(urgency_text) {
            None => (Some(crate::vocab::msg_bad_urgency()), None),
            Some(u) => match spec_task_description(Some(title), notes, None) {
                Ok(Some(d)) => if d.len() > 20_000 {
                    (Some(msg_description_length()), Some(u))
                } else {
                    (None, Some(u))
                },
                Ok(None) => (None, Some(u)),
                Err(e) => (Some(e), Some(u)),
            },
        }
    }
}

/// The tallies of a plan of task proposals.
#[derive(Clone, Copy)]
pub struct ProposalCounts {
    pub creates: usize,
    pub already_existing: usize,
    pub invalid: usize,
}

/// A plan of tasks proposed from Telegram discussions, being assembled.
pub struct ProposalPlanner {
    requests: Vec<String>,
    messages: Vec<(i64, i64)>,
    counts: ProposalCounts,
    decided: Ghost<nat>,
}

/// The verdict on the fields of a proposal.
pub struct ProposalCheck {
    pub error: Option<String>,
    pub urgency: Option<Urgency>,
}

impl ProposalPlanner {
    pub closed spec fn seen_requests(&self) -> Set<Seq<char>> {
        crate::order::str_views(self.requests@).to_set()
    }

    /// The `(chat, message)` pairs that earlier proposals of the plan use.
    pub closed spec fn seen_messages(&self) -> Set<(i64, i64)> {
        self.messages@.to_set()
    }

    pub closed spec fn recorded(&self) -> nat {
        self.decided@
    }

    pub closed spec fn tally(&self) -> ProposalCounts {
        self.counts
    }

    pub closed spec fn wf(&self) -> bool {
        &&& crate::order::strictly_sorted(crate::order::str_views(self.requests@))
        &&& self.counts.creates + self.counts.already_existing + self.counts.invalid == self.decided@
        &&& self.decided@ <= 12
    }

    /// The tallies so far.
    pub fn counts(&self) -> (r: ProposalCounts)
        ensures
            r == self.tally(),
    {
        self.counts
    }

    /// A plan of `proposals` proposals: from 1 to 12.
    pub fn new(proposals: usize) -> (r: Result<Self, String>)
        ensures
            r is Ok <==> 1 <= proposals <= 12,
            match r {
                Ok(p) => p.wf() && p.seen_requests() == Set::<Seq<char>>::empty()
                    && p.seen_messages() == Set::<(i64, i64)>::empty() && p.recorded() == 0,
                Err(e) => e@ == msg_proposal_batch(),
            },
    {
        if proposals == 0 || proposals > 12 {
            return Err(String::from_str("передайте от 1 до 12 предлагаемых задач"));
        }
        let p = ProposalPlanner {
            requests: Vec::new(),
            messages: Vec::new(),
            counts: ProposalCounts { creates: 0, already_existing: 0, invalid: 0 },
            decided: Ghost(0),
        };
        assert(crate::order::str_views(p.requests@) =~= Seq::<Seq<char>>::empty());
        assert(p.messages@.to_set() =~= Set::<(i64, i64)>::empty());
        Ok(p)
    }

    /// Checks the fields of a proposal (trimmed request id and title, notes
    /// and urgency text as normalised); the request id counts as used from
    /// now on.
    pub fn check_fields(
        &mut self,
        request_id: &str,
        title: &str,
        notes: &Option<String>,
        urgency_text: &str,
        context_ids: usize,
    ) -> (r: ProposalCheck)
        requires
            old(self).wf(),
        ensures
            final(self).wf(),
            final(self).seen_requests() == old(self).seen_requests().insert(request_id@),
            final(self).seen_messages() == old(self).seen_messages(),
            final(self).tally() == old(self).tally(),
            final(self).recorded() == old(self).recorded(),
            ({
                let (e, u) = spec_proposal_check(
                    old(self).seen_requests().contains(request_id@),
                    request_id@,
                    title@,
                    opt_string(*notes),
                    urgency_text@,
                    context_ids as nat,
                );
                opt_string(r.error) == e && r.urgency == u
            }),
    {
        let id = request_id.to_string();
        let repeated = crate::context::contains_string(&self.requests, &id);
        let ghost before = crate::order::str_views(self.requests@);
        crate::order::insert_sorted_unique(&mut self.requests, id);
        proof {
            let after = crate::order::str_views(self.requests@);
            assert(after.to_set() =~= before.to_set().insert(request_id@)) by {
                assert forall|y: Seq<char>| after.to_set().contains(y) <==> before.to_set().insert(request_id@).contains(y) by {
                    assert(after.to_set().contains(y) <==> after.contains(y));
                    assert(before.to_set().contains(y) <==> before.contains(y));
                }
            }
            assert(before.to_set().contains(request_id@) <==> before.contains(request_id@));
        }
        if repeated {
            return ProposalCheck { error: Some(String::from_str("request_id нельзя повторять внутри одного плана")), urgency: None };
        }
        let rl = chars_of(request_id).len();
        if rl == 0 || rl > 200 {
            return ProposalCheck { error: Some(String::from_str("request_id должен содержать от 1 до 200 символов")), urgency: None };
        }
        let tl = chars_of(title).len();
        if tl == 0 || tl > 120 {
            return ProposalCheck { error: Some(String::from_str("title должен содержать от 1 до 120 символов")), urgency: None };
        }
        if context_ids > 20 {
            return ProposalCheck { error: Some(String::from_str("context_message_ids может содержать не более 20 ID")), urgency: None };
        }
        match parse_urgency(urgency_text) {
            Err(e) => {
                proof {
                    assert(urgency_of(urgency_text@) is None);
                }
                ProposalCheck { error: Some(e), urgency: None }
            },
            Ok(u) => {
                proof {
                    crate::vocab::lemma_names_are_distinct();
                    assert(urgency_of(urgency_text@) == Some(u));
                }
                let notes_str: Option<&str> = match notes {
                    Some(n) => Some(n.as_str()),
                    None => None,
                };
                match task_description(Some(title), notes_str, None) {
                    Ok(Some(d)) => {
                        if chars_of(d.as_str()).len() > 20_000 {
                            ProposalCheck { error: Some(String::from_str("title и notes вместе не должны превышать 20000 символов")), urgency: Some(u) }
                        } else {
                            ProposalCheck { error: None, urgency: Some(u) }
                        }
                    },
                    Ok(None) => ProposalCheck { error: None, urgency: Some(u) },
                    Err(e) => ProposalCheck { error: Some(e), urgency: Some(u) },
                }
            },
        }
    }

    /// Whether the discussion shares a message with an earlier proposal of
    /// the plan; its messages count as used from now on.
    pub fn claim_messages(&mut self, chat_id: i64, message_ids: &Vec<i64>) -> (r: bool)
        requires
            old(self).wf(),
        ensures
            final(self).wf(),
            r == exists|k: int|
                0 <= k < message_ids@.len() && old(self).seen_messages().contains(
                    (chat_id, #[trigger] message_ids@[k]),
                ),
            forall|m: (i64, i64)|
                final(self).seen_messages().contains(m) <==> (old(self).seen_messages().contains(m)
                    || (m.0 == chat_id && message_ids@.contains(m.1))),
            final(self).seen_requests() == old(self).seen_requests(),
            final(self).tally() == old(self).tally(),
            final(self).recorded() == old(self).recorded(),
    {
        let ghost seen = self.messages@;
        let mut overlaps = false;
        let mut k: usize = 0;
        while k < message_ids.len()
            invariant
                k <= message_ids@.len(),
                self.messages@ == seen,
                self.requests == old(self).requests,
                self.counts == old(self).counts,
                self.decided == old(self).decided,
                overlaps == exists|j: int| 0 <= j < k && seen.contains((chat_id, #[trigger] message_ids@[j])),
            decreases message_ids.len() - k,
        {
            let pair = (chat_id, message_ids[k]);
            let mut m: usize = 0;
            let mut hit = false;
            while m < self.messages.len()
                invariant
                    m <= self.messages@.len(),
                    self.messages@ == seen,
                    hit == exists|q: int| 0 <= q < m && seen[q] == pair,
                decreases self.messages.len() - m,
            {
                if self.messages[m].0 == pair.0 && self.messages[m].1 == pair.1 {
                    hit = true;
                }
                m = m + 1;
            }
            proof {
                if hit {
                    let q = choose|q: int| 0 <= q < m && seen[q] == pair;
                    assert(seen.contains(pair));
                }
                if seen.contains(pair) {
                    let q = choose|q: int| 0 <= q < seen.len() && seen[q] == pair;
                    assert(hit);
                }
            }
            if hit {
                overlaps = true;
            }
            k = k + 1;
        }
        let ghost pairs = message_ids@.map_values(|id: i64| (chat_id, id));
        let mut k: usize = 0;
        while k < message_ids.len()
            invariant
                k <= message_ids@.len(),
                self.requests == old(self).requests,
                self.counts == old(self).counts,
                self.decided == old(self).decided,
                pairs == message_ids@.map_values(|id: i64| (chat_id, id)),
                self.messages@ == seen + pairs.take(k as int),
            decreases message_ids.len() - k,
        {
            self.messages.push((chat_id, message_ids[k]));
            assert(pairs.take(k + 1) == pairs.take(k as int).push(pairs[k as int]));
            k = k + 1;
        }
        proof {
            assert(pairs.take(message_ids@.len() as int) == pairs);
            let all = seen + pairs;
            assert forall|m: (i64, i64)| all.to_set().contains(m) <==> (seen.to_set().contains(m)
                || (m.0 == chat_id && message_ids@.contains(m.1))) by {
                if all.contains(m) {
                    let q = choose|q: int| 0 <= q < all.len() && all[q] == m;
                    if q < seen.len() {
                        assert(seen[q] == m);
                    } else {
                        assert(pairs[q - seen.len()] == m);
                        assert(message_ids@[q - seen.len()] == m.1);
                    }
                }
                if seen.contains(m) {
                    let q = choose|q: int| 0 <= q < seen.len() && seen[q] == m;
                    assert(all[q] == m);
                }
                if m.0 == chat_id && message_ids@.contains(m.1) {
                    let j = choose|j: int| 0 <= j < message_ids@.len() && message_ids@[j] == m.1;
                    assert(all[seen.len() + j] == m);
                }
            }
        }
        overlaps
    }

    /// Counts one proposal: as a new task or one that exists already when it
    /// is ready, as invalid when not.
    pub fn record(&mut self, ready: bool, existing: bool)
        requires
            old(self).wf(),
            old(self).recorded() < 12,
        ensures
            final(self).wf(),
            final(self).seen_requests() == old(self).seen_requests(),
            final(self).seen_messages() == old(self).seen_messages(),
            final(self).recorded() == old(self).recorded() + 1,
            final(self).tally().creates == old(self).tally().creates + if ready && !existing { 1int } else { 0int },
            final(self).tally().already_existing == old(self).tally().already_existing + if ready && existing { 1int } else { 0int },
            final(self).tally().invalid == old(self).tally().invalid + if ready { 0int } else { 1int },
    {
        if ready {
            if existing {
                self.counts.already_existing = self.counts.already_existing + 1;
            } else {
                self.counts.creates = self.counts.creates + 1;
            }
        } else {
            self.counts.invalid = self.counts.invalid + 1;
        }
        self.decided = Ghost(self.decided@ + 1);
    }
}

pub open spec fn msg_existing_task(title: Seq<char>) -> Seq<char> {
    "задача «"@ + title + "» уже связана с этим обсуждением; применение вернёт её без дубля"@
}

/// The warning on a valid proposal: the task that the discussion already
/// has, or else the media still to download.
pub fn proposal_warning(existing_task_title: Option<&str>, media_count: usize) -> (r: Option<String>)
    ensures
        opt_string(r) == match existing_task_title {
            Some(t) => Some(msg_existing_task(t@)),
            None => if media_count > 0 { Some(msg_media_pending(media_count as nat)) } else { None },
        },
{
    match existing_task_title {
        Some(t) => {
            let mut v: Vec<char> = Vec::new();
            push_str_chars(&mut v, "задача «");
            push_str_chars(&mut v, t);
            push_str_chars(&mut v, "» уже связана с этим обсуждением; применение вернёт её без дубля");
            Some(string_of(&v))
        },
        None => if media_count > 0 {
            Some(media_warning(media_count))
        } else {
            None
        },
    }
}

/// The bytes whose digest confirms a triage plan: a tag, a zero byte and
/// the plan's fingerprint.
pub open spec fn triage_token_input(fingerprint: Seq<u8>) -> Seq<u8> {
    encode_utf8("flood.telegram-triage-plan.v1"@) + seq![0u8] + fingerprint
}

/// The confirmation token of a triage plan with this fingerprint.
pub fn triage_plan_token(fingerprint: &Vec<u8>) -> (r: String)
    ensures
        r@ == hex_lower(sha256(triage_token_input(fingerprint@))),
{
    let mut bytes: Vec<u8> = Vec::new();
    push_utf8(&mut bytes, "flood.telegram-triage-plan.v1");
    bytes.push(0u8);
    let mut i: usize = 0;
    let ghost head = bytes@;
    while i < fingerprint.len()
        invariant
            i <= fingerprint@.len(),
            bytes@ == head + fingerprint@.take(i as int),
        decreases fingerprint.len() - i,
    {
        bytes.push(fingerprint[i]);
        assert(fingerprint@.take(i + 1) == fingerprint@.take(i as int).push(fingerprint@[i as int]));
        i = i + 1;
    }
    assert(fingerprint@.take(fingerprint@.len() as int) == fingerprint@);
    assert(bytes@ == triage_token_input(fingerprint@));
    sha256_hex(&bytes)
}

/// The bytes whose digest confirms a plan of proposed tasks: a tag, the
/// project id, whether the tasks go to the agent, and the fingerprint,
/// separated by zero bytes.
pub open spec fn proposal_token_input(project_id: Seq<char>, run_with_agent: bool, fingerprint: Seq<u8>) -> Seq<u8> {
    encode_utf8("flood.project-telegram-task-plan.v2"@) + seq![0u8] + encode_utf8(project_id) + seq![0u8]
        + seq![if run_with_agent { 1u8 } else { 0u8 }] + seq![0u8] + fingerprint
}

/// The confirmation token of a plan of proposed tasks.
pub fn proposal_plan_token(project_id: &str, run_with_agent: bool, fingerprint: &Vec<u8>) -> (r: String)
    ensures
        r@ == hex_lower(sha256(proposal_token_input(project_id@, run_with_agent, fingerprint@))),
{
    let mut bytes: Vec<u8> = Vec::new();
    push_utf8(&mut bytes, "flood.project-telegram-task-plan.v2");
    bytes.push(0u8);
    push_utf8(&mut bytes, project_id);
    bytes.push(0u8);
    bytes.push(if run_with_agent { 1u8 } else { 0u8 });
    bytes.push(0u8);
    let mut i: usize = 0;
    let ghost head = bytes@;
    while i < fingerprint.len()
        invariant
            i <= fingerprint@.len(),
            bytes@ == head + fingerprint@.take(i as int),
        decreases fingerprint.len() - i,
    {
        bytes.push(fingerprint[i]);
        assert(fingerprint@.take(i + 1) == fingerprint@.take(i as int).push(fingerprint@[i as int]));
        i = i + 1;
    }
    assert(fingerprint@.take(fingerprint@.len() as int) == fingerprint@);
    assert(bytes@ == proposal_token_input(project_id@, run_with_agent, fingerprint@));
    sha256_hex(&bytes)
}

/// A triage plan as a whole: its tallies, whether it may be applied, and
/// the token that confirms it.
pub struct TriagePlanOutcome {
    pub ready: bool,
    pub creates: usize,
    pub dismisses: usize,
    pub keeps: usize,
    pub invalid: usize,
    pub confirmation_token: Option<String>,
}

impl TriagePlanner {
    /// The plan once its decisions are recorded: its tallies, which add up to
    /// the decisions; ready exactly when no decision is invalid; and the
    /// confirmation token of its fingerprint exactly when it is ready.
    pub fn outcome(&self, fingerprint: &Vec<u8>) -> (r: TriagePlanOutcome)
        requires
            self.wf(),
        ensures
            r.creates == self.tally().creates,
            r.dismisses == self.tally().dismisses,
            r.keeps == self.tally().keeps,
            r.invalid == self.tally().invalid,
            r.creates + r.dismisses + r.keeps + r.invalid == self.recorded(),
            r.ready == (r.invalid == 0),
            r.confirmation_token is Some == r.ready,
            r.confirmation_token matches Some(t) ==> t@ == hex_lower(sha256(triage_token_input(fingerprint@))),
    {
        let c = self.counts;
        let ready = c.invalid == 0;
        let confirmation_token = if ready { Some(triage_plan_token(fingerprint)) } else { None };
        TriagePlanOutcome {
            ready,
            creates: c.creates,
            dismisses: c.dismisses,
            keeps: c.keeps,
            invalid: c.invalid,
            confirmation_token,
        }
    }
}

/// A plan of proposed tasks as a whole: its tallies, whether it may be
/// applied, and the token that confirms it.
pub struct ProposalPlanOutcome {
    pub ready: bool,
    pub creates: usize,
    pub already_existing: usize,
    pub invalid: usize,
    pub confirmation_token: Option<String>,
}

impl ProposalPlanner {
    /// The plan once its proposals are recorded: its tallies, which add up
    /// to the proposals; ready exactly when no proposal is invalid; and the
    /// confirmation token for the project, the agent choice and the
    /// fingerprint exactly when it is ready.
    pub fn outcome(&self, project_id: &str, run_with_agent: bool, fingerprint: &Vec<u8>) -> (r: ProposalPlanOutcome)
        requires
            self.wf(),
        ensures
            r.creates == self.tally().creates,
            r.already_existing == self.tally().already_existing,
            r.invalid == self.tally().invalid,
            r.creates + r.already_existing + r.invalid == self.recorded(),
            r.ready == (r.invalid == 0),
            r.confirmation_token is Some == r.ready,
            r.confirmation_token matches Some(t) ==> t@ == hex_lower(
                sha256(proposal_token_input(project_id@, run_with_agent, fingerprint@)),
            ),
    {
        let c = self.counts;
        let ready = c.invalid == 0;
        let confirmation_token = if ready {
            Some(proposal_plan_token(project_id, run_with_agent, fingerprint))
        } else {
            None
        };
        ProposalPlanOutcome {
            ready,
            creates: c.creates,
            already_existing: c.already_existing,
            invalid: c.invalid,
            confirmation_token,
        }
    }
}

/// Which preview a plan comes from.
#[derive(PartialEq, Eq, Structural, Clone, Copy, Debug)]
pub enum PlanKind {
    /// Triage of Telegram candidates.
    Triage,
    /// Tasks proposed from Telegram discussions of a project.
    ProjectTasks,
}

pub open spec fn msg_token_missing(kind: PlanKind) -> Seq<char> {
    match kind {
        PlanKind::Triage => "сначала вызовите preview_telegram_triage и передайте confirmation_token после подтверждения пользователя"@,
        PlanKind::ProjectTasks => "сначала вызовите preview_project_telegram_tasks и передайте confirmation_token после подтверждения пользователя"@,
    }
}

pub open spec fn msg_plan_invalid(kind: PlanKind, invalid: nat) -> Seq<char> {
    match kind {
        PlanKind::Triage => "план содержит "@ + decimal_digits(invalid) + " некорректных решений; повторите preview_telegram_triage"@,
        PlanKind::ProjectTasks => "план содержит "@ + decimal_digits(invalid) + " некорректных предложений; повторите preview_project_telegram_tasks"@,
    }
}

pub open spec fn msg_token_stale(kind: PlanKind) -> Seq<char> {
    match kind {
        PlanKind::Triage => "confirmation_token устарел или относится к другому плану; повторите preview_telegram_triage"@,
        PlanKind::ProjectTasks => "confirmation_token устарел или относится к другому плану; повторите preview_project_telegram_tasks"@,
    }
}

/// The confirmation token that the user passed, trimmed: it must not be
/// empty.
pub fn confirmation_token_given(kind: PlanKind, token: &str) -> (r: Result<String, String>)
    ensures
        match r {
            Ok(t) => t@ == trim_ws(token@) && t@.len() > 0,
            Err(e) => trim_ws(token@).len() == 0 && e@ == msg_token_missing(kind),
        },
{
    let t = trim_chars(&chars_of(token));
    if t.len() == 0 {
        return Err(match kind {
            PlanKind::Triage => String::from_str("сначала вызовите preview_telegram_triage и передайте confirmation_token после подтверждения пользователя"),
            PlanKind::ProjectTasks => String::from_str("сначала вызовите preview_project_telegram_tasks и передайте confirmation_token после подтверждения пользователя"),
        });
    }
    Ok(string_of(&t))
}

/// Whether a plan rebuilt at apply time may go ahead: it must be ready and
/// have the token that the user confirmed.
pub fn confirm_plan(
    kind: PlanKind,
    token: &str,
    ready: bool,
    invalid: usize,
    plan_token: &Option<String>,
) -> (r: Result<(), String>)
    ensures
        match r {
            Ok(_) => ready && opt_string(*plan_token) == Some(token@),
            Err(e) => if !ready {
                e@ == msg_plan_invalid(kind, invalid as nat)
            } else {
                opt_string(*plan_token) != Some(token@) && e@ == msg_token_stale(kind)
            },
        },
{
    if !ready {
        let mut v: Vec<char> = Vec::new();
        push_str_chars(&mut v, "план содержит ");
        let d = to_decimal(invalid);
        push_chars(&mut v, &d);
        match kind {
            PlanKind::Triage => push_str_chars(&mut v, " некорректных решений; повторите preview_telegram_triage"),
            PlanKind::ProjectTasks => push_str_chars(&mut v, " некорректных предложений; повторите preview_project_telegram_tasks"),
        }
        return Err(string_of(&v));
    }
    let same = match plan_token {
        Some(p) => crate::paths::chars_eq(&chars_of(p.as_str()), &chars_of(token)),
        None => false,
    };
    if !same {
        return Err(match kind {
            PlanKind::Triage => String::from_str("confirmation_token устарел или относится к другому плану; повторите preview_telegram_triage"),
            PlanKind::ProjectTasks => String::from_str("confirmation_token устарел или относится к другому плану; повторите preview_project_telegram_tasks"),
        });
    }
    Ok(())
}

/// What applying one confirmed triage decision does.
pub enum TriageStep {
    CreateTask,
    Dismiss,
    Keep,
    /// The decision fails with this error and nothing is done.
    Fail(String),
}

pub open spec fn msg_repeated_in_batch() -> Seq<char> {
    "один кандидат нельзя обработать дважды в одной порции"@
}

/// The step for a decision: a candidate met twice fails, `create_task` needs
/// a title, and an unknown action fails.
pub fn triage_apply_step(repeated: bool, action: &str, has_title: bool) -> (r: TriageStep)
    ensures
        match r {
            TriageStep::Fail(e) => if repeated {
                e@ == msg_repeated_in_batch()
            } else if action@ == "create_task"@ {
                !has_title && e@ == "title обязателен для action=create_task"@
            } else {
                action@ != "dismiss"@ && action@ != "keep"@ && e@ == "action должен быть create_task, dismiss или keep"@
            },
            TriageStep::CreateTask => !repeated && action@ == "create_task"@ && has_title,
            TriageStep::Dismiss => !repeated && action@ == "dismiss"@,
            TriageStep::Keep => !repeated && action@ == "keep"@,
        },
{
    if repeated {
        return TriageStep::Fail(String::from_str("один кандидат нельзя обработать дважды в одной порции"));
    }
    let a = chars_of(action);
    if chars_is(&a, "create_task") {
        if has_title {
            TriageStep::CreateTask
        } else {
            TriageStep::Fail(String::from_str("title обязателен для action=create_task"))
        }
    } else if chars_is(&a, "dismiss") {
        TriageStep::Dismiss
    } else if chars_is(&a, "keep") {
        TriageStep::Keep
    } else {
        TriageStep::Fail(String::from_str("action должен быть create_task, dismiss или keep"))
    }
}

/// What applying a triage batch did: decisions done per action, and those
/// that failed.
pub struct TriageApplyTally {
    pub created: usize,
    pub dismissed: usize,
    pub kept: usize,
    pub failed: usize,
}

impl TriageApplyTally {
    /// A batch with nothing applied yet.
    pub fn new() -> (r: Self)
        ensures
            r.created == 0 && r.dismissed == 0 && r.kept == 0 && r.failed == 0,
    {
        TriageApplyTally { created: 0, dismissed: 0, kept: 0, failed: 0 }
    }

    /// Counts one decision by its step and whether the store carried it out:
    /// a failed step, or one the store refused, counts as failed; any other
    /// counts under its action.
    pub fn record(&mut self, step: &TriageStep, succeeded: bool)
        requires
            old(self).created + old(self).dismissed + old(self).kept + old(self).failed < usize::MAX,
        ensures
            final(self).failed == old(self).failed + if step is Fail || !succeeded { 1int } else { 0int },
            final(self).created == old(self).created + if step is CreateTask && succeeded { 1int } else { 0int },
            final(self).dismissed == old(self).dismissed + if step is Dismiss && succeeded { 1int } else { 0int },
            final(self).kept == old(self).kept + if step is Keep && succeeded { 1int } else { 0int },
            final(self).created + final(self).dismissed + final(self).kept + final(self).failed == old(self).created
                + old(self).dismissed + old(self).kept + old(self).failed + 1,
    {
        if !succeeded {
            self.failed = self.failed + 1;
            return;
        }
        match step {
            TriageStep::CreateTask => self.created = self.created + 1,
            TriageStep::Dismiss => self.dismissed = self.dismissed + 1,
            TriageStep::Keep => self.kept = self.kept + 1,
            TriageStep::Fail(_) => self.failed = self.failed + 1,
        }
    }
}

/// The request id of the agent run of a task created from a proposal.
pub fn proposal_agent_request_id(request_id: &str) -> (r: String)
    ensures
        r@ == "telegram-task-agent:"@ + request_id@,
{
    let mut v: Vec<char> = Vec::new();
    push_str_chars(&mut v, "telegram-task-agent:");
    push_str_chars(&mut v, request_id);
    string_of(&v)
}

} // verus!

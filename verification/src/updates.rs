use vstd::prelude::*;

use crate::stable::{as_ints, positions_below, sort_positions, stable_sort, take_positions};
use crate::chars::chars_of;
use crate::order::{chars_less, seq_less};

verus! {

/// How many linked chats a project read scans at most.
pub open spec fn max_chats() -> nat {
    25
}

/// How many messages a project read returns at most over all chats.
pub open spec fn max_messages() -> nat {
    50
}

/// How a read of a project's Telegram updates shares its budget.
pub struct UpdatesBudget {
    /// How many of the linked chats are read.
    pub scanned: usize,
    /// How many messages each of them may return.
    pub per_chat: usize,
}

/// The budget of a read: the first 25 linked chats, each with the requested
/// number of messages (10 by default, within 1..=20) but no more than its
/// fair share of 50.
pub fn updates_budget(linked_chats: usize, per_chat_limit: Option<usize>) -> (r: UpdatesBudget)
    ensures
        r.scanned == if linked_chats < 25 { linked_chats } else { 25 },
        ({
            let requested: int = match per_chat_limit {
                Some(l) => if l < 1 { 1 } else if l > 20 { 20 } else { l as int },
                None => 10,
            };
            let share: int = if r.scanned == 0 { 50int } else if 50int / (r.scanned as int) < 1 { 1int } else { 50int / (r.scanned as int) };
            r.per_chat == if requested < share { requested } else { share }
        }),
{
    let scanned = if linked_chats < 25 { linked_chats } else { 25 };
    let requested: usize = match per_chat_limit {
        Some(l) => if l < 1 { 1 } else if l > 20 { 20 } else { l },
        None => 10,
    };
    let share: usize = if scanned == 0 { 50 } else if 50 / scanned < 1 { 1 } else { 50 / scanned };
    UpdatesBudget { scanned, per_chat: if requested < share { requested } else { share } }
}

/// Where a message stands in a project's timeline.
pub struct TimelineKey {
    /// Send time, in nanoseconds since the Unix epoch.
    pub sent_at_nanos: i128,
    pub chat_id: i64,
    pub message_id: i64,
}

/// Earlier messages first, then by chat, then by message id.
pub open spec fn timeline_before(keys: Seq<TimelineKey>) -> spec_fn(int, int) -> bool {
    |a: int, b: int|
        keys[a].sent_at_nanos < keys[b].sent_at_nanos || (keys[a].sent_at_nanos == keys[b].sent_at_nanos
            && (keys[a].chat_id < keys[b].chat_id || (keys[a].chat_id == keys[b].chat_id
            && keys[a].message_id < keys[b].message_id)))
}

/// The messages of a project's chats in timeline order.
pub fn timeline_order(keys: &Vec<TimelineKey>) -> (r: Vec<usize>)
    ensures
        as_ints(r@) == stable_sort(timeline_before(keys@), Seq::new(keys@.len(), |i: int| i)),
{
    let n = keys.len();
    let all = positions_below(n);
    sort_positions(
        &all,
        Ghost(timeline_before(keys@)),
        n,
        (|a: usize, b: usize| -> (r: bool)
            requires
                a < n && b < n,
                n == keys@.len(),
            ensures
                r == timeline_before(keys@)(a as int, b as int),
            {
                let x = &keys[a];
                let y = &keys[b];
                x.sent_at_nanos < y.sent_at_nanos || (x.sent_at_nanos == y.sent_at_nanos && (x.chat_id
                    < y.chat_id || (x.chat_id == y.chat_id && x.message_id < y.message_id)))
            }),
    )
}

pub open spec fn str_list(v: Seq<&'static str>) -> Seq<Seq<char>> {
    v.map_values(|s: &'static str| s@)
}

/// The tools that follow a read of a project's updates: a sync when the
/// cache is stale or a chat could not be read and none is pending, media
/// download when a message has media, and the ways to act on messages when
/// there are any.
pub open spec fn spec_updates_tools(
    fresh: bool,
    unavailable_chats: nat,
    sync_pending: bool,
    linked_chats: nat,
    any_media: bool,
    any_message: bool,
) -> Seq<Seq<char>> {
    (if (!fresh || unavailable_chats > 0) && !sync_pending && linked_chats > 0 {
        seq!["request_telegram_sync"@]
    } else {
        Seq::empty()
    }) + (if any_media { seq!["request_telegram_image"@] } else { Seq::empty() }) + (if any_message {
        seq![
            "read_telegram_message_context"@,
            "preview_project_telegram_tasks"@,
            "create_task_from_telegram_discussion"@,
            "acknowledge_telegram_updates"@,
        ]
    } else {
        Seq::empty()
    })
}

pub fn updates_tools(
    fresh: bool,
    unavailable_chats: usize,
    sync_pending: bool,
    linked_chats: usize,
    any_media: bool,
    any_message: bool,
) -> (r: Vec<&'static str>)
    ensures
        str_list(r@) == spec_updates_tools(
            fresh,
            unavailable_chats as nat,
            sync_pending,
            linked_chats as nat,
            any_media,
            any_message,
        ),
{
    let mut v: Vec<&'static str> = Vec::new();
    if (!fresh || unavailable_chats > 0) && !sync_pending && linked_chats > 0 {
        v.push("request_telegram_sync");
    }
    if any_media {
        v.push("request_telegram_image");
    }
    if any_message {
        v.push("read_telegram_message_context");
        v.push("preview_project_telegram_tasks");
        v.push("create_task_from_telegram_discussion");
        v.push("acknowledge_telegram_updates");
    }
    assert(str_list(v@) =~= spec_updates_tools(
        fresh,
        unavailable_chats as nat,
        sync_pending,
        linked_chats as nat,
        any_media,
        any_message,
    ));
    v
}

/// Where a signal stands in a project's context feed.
pub struct SignalKey {
    /// When it happened, in nanoseconds since the Unix epoch.
    pub occurred_at_nanos: i128,
    pub connector_id: String,
    pub external_id: String,
}

/// Latest first, then by connector, then by external id.
pub open spec fn feed_before(keys: Seq<SignalKey>) -> spec_fn(int, int) -> bool {
    |a: int, b: int|
        keys[a].occurred_at_nanos > keys[b].occurred_at_nanos || (keys[a].occurred_at_nanos
            == keys[b].occurred_at_nanos && (seq_less(keys[a].connector_id@, keys[b].connector_id@) || (
        keys[a].connector_id@ == keys[b].connector_id@ && seq_less(keys[a].external_id@, keys[b].external_id@))))
}

/// The signals of a feed that it shows: the 50 latest, in feed order.
pub struct FeedSelection {
    pub positions: Vec<usize>,
    /// Whether signals were left out.
    pub truncated: bool,
}

/// Orders a feed's signals, latest first, and keeps at most 50 of them.
pub fn feed_order(keys: &Vec<SignalKey>) -> (r: FeedSelection)
    ensures
        ({
            let order = stable_sort(feed_before(keys@), Seq::new(keys@.len(), |i: int| i));
            let kept = if keys@.len() > 50 { 50 } else { keys@.len() as int };
            &&& as_ints(r.positions@) == order.take(kept)
            &&& r.truncated == (keys@.len() > 50)
        }),
{
    let n = keys.len();
    let all = positions_below(n);
    let order = sort_positions(
        &all,
        Ghost(feed_before(keys@)),
        n,
        (|a: usize, b: usize| -> (r: bool)
            requires
                a < n && b < n,
                n == keys@.len(),
            ensures
                r == feed_before(keys@)(a as int, b as int),
            {
                let x = &keys[a];
                let y = &keys[b];
                if x.occurred_at_nanos != y.occurred_at_nanos {
                    x.occurred_at_nanos > y.occurred_at_nanos
                } else {
                    let xc = chars_of(x.connector_id.as_str());
                    let yc = chars_of(y.connector_id.as_str());
                    chars_less(&xc, &yc) || (crate::paths::chars_eq(&xc, &yc) && chars_less(
                        &chars_of(x.external_id.as_str()),
                        &chars_of(y.external_id.as_str()),
                    ))
                }
            }),
    );
    proof {
        crate::stable::lemma_stable_sort_len(feed_before(keys@), Seq::new(keys@.len(), |i: int| i));
    }
    let positions = take_positions(&order, 50);
    FeedSelection { positions, truncated: n > 50 }
}


/// The most sources a context feed reads.
pub open spec fn max_feed_sources() -> int {
    12
}

/// What the feed knows of a linked GitHub repository before reading it.
pub struct FeedSourceFacts {
    pub agent_access: bool,
    /// Whether its location reads as a GitHub repository.
    pub repository_parsed: bool,
}

/// What the feed does with a GitHub source.
#[derive(PartialEq, Eq, Structural, Clone, Copy, Debug)]
pub enum FeedSourceAction {
    /// Listed with the error that the agent has no access; never read.
    RefuseAccess,
    /// Listed with the error that GitHub is not connected.
    RefuseConnector,
    /// Left out: its location is not a repository.
    Skip,
    /// Read through the GitHub connector.
    ReadGitHub,
}

/// Which sources a context feed reads, and how many signals per source.
pub struct FeedSourcePlan {
    /// How many of the linked chats, from the first, are read.
    pub telegram_read: usize,
    /// The actions for the first GitHub sources, in order.
    pub github_actions: Vec<FeedSourceAction>,
    pub limit: usize,
    /// More sources are linked than the feed reads.
    pub truncated: bool,
}

pub open spec fn feed_action(f: FeedSourceFacts, github_ready: bool) -> FeedSourceAction {
    if !f.agent_access {
        FeedSourceAction::RefuseAccess
    } else if !github_ready {
        FeedSourceAction::RefuseConnector
    } else if !f.repository_parsed {
        FeedSourceAction::Skip
    } else {
        FeedSourceAction::ReadGitHub
    }
}

/// The sources that a context feed reads: the first chats, up to twelve,
/// then GitHub sources in order in the remaining slots, each refused
/// without agent access, refused while GitHub is not connected, skipped
/// when not a repository, and read otherwise; `limit_per_source` is 5 by
/// default, between 1 and 10.
pub fn feed_source_plan(
    telegram_chats: usize,
    github: &Vec<FeedSourceFacts>,
    github_ready: bool,
    limit_per_source: Option<usize>,
) -> (r: FeedSourcePlan)
    ensures
        r.telegram_read == if telegram_chats < 12 { telegram_chats } else { 12 },
        ({
            let slots = 12 - r.telegram_read;
            let n = if github@.len() < slots { github@.len() as int } else { slots };
            &&& r.github_actions@.len() == n
            &&& forall|i: int| 0 <= i < n ==> #[trigger] r.github_actions@[i] == feed_action(github@[i], github_ready)
        }),
        r.limit == crate::walk::clamp(match limit_per_source { Some(x) => x as int, None => 5 }, 1, 10),
        r.truncated == (telegram_chats + github@.len() > 12),
{
    let telegram_read: usize = if telegram_chats < 12 { telegram_chats } else { 12 };
    let slots: usize = 12 - telegram_read;
    let n: usize = if github.len() < slots { github.len() } else { slots };
    let mut actions: Vec<FeedSourceAction> = Vec::new();
    let mut i: usize = 0;
    while i < n
        invariant
            i <= n <= github@.len(),
            actions@.len() == i,
            forall|k: int| 0 <= k < i ==> #[trigger] actions@[k] == feed_action(github@[k], github_ready),
        decreases n - i,
    {
        let f = &github[i];
        let a = if !f.agent_access {
            FeedSourceAction::RefuseAccess
        } else if !github_ready {
            FeedSourceAction::RefuseConnector
        } else if !f.repository_parsed {
            FeedSourceAction::Skip
        } else {
            FeedSourceAction::ReadGitHub
        };
        actions.push(a);
        i = i + 1;
    }
    let limit: usize = match limit_per_source {
        Some(x) => if x < 1 { 1 } else if x > 10 { 10 } else { x },
        None => 5,
    };
    let truncated = telegram_chats > 12 || github.len() > 12 - telegram_chats;
    FeedSourcePlan { telegram_read, github_actions: actions, limit, truncated }
}

/// The error a refused GitHub source is listed with.
pub fn feed_refusal_message(action: FeedSourceAction) -> (r: Option<&'static str>)
    ensures
        match action {
            FeedSourceAction::RefuseAccess => r is Some && r->0@ == "Доступ агента к источнику не разрешён"@,
            FeedSourceAction::RefuseConnector => r is Some && r->0@ == "GitHub не подключён или требует повторного входа"@,
            _ => r is None,
        },
{
    match action {
        FeedSourceAction::RefuseAccess => Some("Доступ агента к источнику не разрешён"),
        FeedSourceAction::RefuseConnector => Some("GitHub не подключён или требует повторного входа"),
        _ => None,
    }
}

/// Whether a GitHub source may hold more than the feed read: it returned at
/// least twice the per-source limit.
pub fn github_source_has_more(returned: usize, limit: usize) -> (r: bool)
    ensures
        r == (returned >= if 2 * limit > usize::MAX { usize::MAX as int } else { 2 * limit }),
{
    if limit > usize::MAX / 2 {
        returned >= usize::MAX
    } else {
        returned >= limit * 2
    }
}

/// Whether the feed as a whole is truncated: too many linked sources, a
/// source with more than it returned, or signals cut at fifty.
pub fn feed_truncated(plan_truncated: bool, some_source_has_more: bool, signals_cut: bool) -> (r: bool)
    ensures
        r == (plan_truncated || some_source_has_more || signals_cut),
{
    plan_truncated || some_source_has_more || signals_cut
}

} // verus!

//! The connector catalog: how the Telegram connector's last reported step
//! reads as health, and which projects and sources each connector serves.
use vstd::prelude::*;

use crate::chars::{chars_of, string_of};
use crate::order::str_views;
use crate::paths::{chars_eq, chars_is};

verus! {

/// How a connector is doing.
#[derive(PartialEq, Eq, Structural, Clone, Copy, Debug)]
pub enum ConnectorHealth {
    Ready,
    Connecting,
    Attention,
    Disconnected,
    Error,
}

/// The health that a reported step of the Telegram connector means: ready,
/// not configured, failed, waiting for the user (phone, code, password or QR
/// code), or still connecting.
pub open spec fn step_health(step: Seq<char>) -> ConnectorHealth {
    if step == "ready"@ {
        ConnectorHealth::Ready
    } else if step == "unconfigured"@ {
        ConnectorHealth::Disconnected
    } else if step == "error"@ || step == "database_error"@ {
        ConnectorHealth::Error
    } else if step == "waiting_phone"@ || step == "waiting_code"@ || step == "waiting_password"@ || step == "waiting_qr"@ {
        ConnectorHealth::Attention
    } else {
        ConnectorHealth::Connecting
    }
}

/// What the Telegram connector last reported.
pub struct TelegramConnectorReport {
    pub step: String,
    pub configured: bool,
    pub account_name: Option<String>,
    pub account_username: Option<String>,
    pub error: Option<String>,
}

/// The Telegram connector's state in the catalog.
pub struct ConnectorRuntime {
    pub health: ConnectorHealth,
    pub configured: bool,
    pub account_label: Option<String>,
    pub detail: Option<String>,
}

pub open spec fn msg_open_app() -> Seq<char> {
    "Откройте flood.md, чтобы проверить локальный коннектор"@
}

/// The Telegram connector's state: from its last report (the account shown
/// by username, else by name), or disconnected with a hint to open the app
/// when it never reported.
pub fn telegram_connector_runtime(report: Option<TelegramConnectorReport>) -> (r: ConnectorRuntime)
    ensures
        match report {
            Some(s) => {
                &&& r.health == step_health(s.step@)
                &&& r.configured == s.configured
                &&& r.account_label == if s.account_username is Some { s.account_username } else { s.account_name }
                &&& r.detail == s.error
            },
            None => {
                &&& r.health == ConnectorHealth::Disconnected
                &&& !r.configured
                &&& r.account_label is None
                &&& r.detail is Some && r.detail->0@ == msg_open_app()
            },
        },
{
    match report {
        Some(s) => {
            let step = chars_of(s.step.as_str());
            let health = if chars_is(&step, "ready") {
                ConnectorHealth::Ready
            } else if chars_is(&step, "unconfigured") {
                ConnectorHealth::Disconnected
            } else if chars_is(&step, "error") || chars_is(&step, "database_error") {
                ConnectorHealth::Error
            } else if chars_is(&step, "waiting_phone") || chars_is(&step, "waiting_code") || chars_is(&step, "waiting_password")
                || chars_is(&step, "waiting_qr") {
                ConnectorHealth::Attention
            } else {
                ConnectorHealth::Connecting
            };
            let TelegramConnectorReport { step: _, configured, account_name, account_username, error } = s;
            let account_label = match account_username {
                Some(u) => Some(u),
                None => account_name,
            };
            ConnectorRuntime { health, configured, account_label, detail: error }
        },
        None => ConnectorRuntime {
            health: ConnectorHealth::Disconnected,
            configured: false,
            account_label: None,
            detail: Some(String::from_str("Откройте flood.md, чтобы проверить локальный коннектор")),
        },
    }
}

/// What the catalog reads of a project: its linked chats and the locations
/// of its GitHub repositories.
pub struct ProjectConnectorFacts {
    pub project_id: String,
    pub chat_ids: Vec<i64>,
    pub github_locations: Vec<String>,
}

/// Which projects and how many distinct sources each connector serves.
pub struct ConnectorLinks {
    pub telegram_project_ids: Vec<String>,
    pub telegram_sources: usize,
    pub github_project_ids: Vec<String>,
    pub github_sources: usize,
}

/// The projects, in order, that link at least one chat.
pub open spec fn telegram_projects(ps: Seq<ProjectConnectorFacts>) -> Seq<Seq<char>>
    decreases ps.len(),
{
    if ps.len() == 0 {
        Seq::empty()
    } else {
        let rest = telegram_projects(ps.drop_last());
        if ps.last().chat_ids@.len() > 0 { rest.push(ps.last().project_id@) } else { rest }
    }
}

/// The projects, in order, that have a GitHub repository.
pub open spec fn github_projects(ps: Seq<ProjectConnectorFacts>) -> Seq<Seq<char>>
    decreases ps.len(),
{
    if ps.len() == 0 {
        Seq::empty()
    } else {
        let rest = github_projects(ps.drop_last());
        if ps.last().github_locations@.len() > 0 { rest.push(ps.last().project_id@) } else { rest }
    }
}

/// Every linked chat of every project.
pub open spec fn all_chats(ps: Seq<ProjectConnectorFacts>) -> Seq<i64>
    decreases ps.len(),
{
    if ps.len() == 0 {
        Seq::empty()
    } else {
        all_chats(ps.drop_last()) + ps.last().chat_ids@
    }
}

/// Every GitHub location of every project.
pub open spec fn all_locations(ps: Seq<ProjectConnectorFacts>) -> Seq<Seq<char>>
    decreases ps.len(),
{
    if ps.len() == 0 {
        Seq::empty()
    } else {
        all_locations(ps.drop_last()) + str_views(ps.last().github_locations@)
    }
}

fn add_chat(distinct: &mut Vec<i64>, x: i64)
    requires
        old(distinct)@.no_duplicates(),
    ensures
        final(distinct)@.no_duplicates(),
        final(distinct)@.to_set() == old(distinct)@.to_set().insert(x),
{
    let mut i: usize = 0;
    while i < distinct.len()
        invariant
            i <= distinct@.len(),
            distinct@.no_duplicates(),
            forall|k: int| 0 <= k < i ==> distinct@[k] != x,
        decreases distinct.len() - i,
    {
        if distinct[i] == x {
            assert(distinct@.to_set().contains(x));
            assert(distinct@.to_set().insert(x) =~= distinct@.to_set());
            return;
        }
        i = i + 1;
    }
    let ghost before = distinct@;
    distinct.push(x);
    assert(distinct@.to_set() =~= before.to_set().insert(x)) by {
        assert forall|y: i64| distinct@.to_set().contains(y) <==> before.to_set().insert(x).contains(y) by {
            if distinct@.contains(y) {
                let k = choose|k: int| 0 <= k < distinct@.len() && distinct@[k] == y;
                if k < before.len() {
                    assert(before[k] == y);
                }
            }
            if before.contains(y) {
                let k = choose|k: int| 0 <= k < before.len() && before[k] == y;
                assert(distinct@[k] == y);
            }
            if y == x {
                assert(distinct@[before.len() as int] == x);
            }
        }
    }
}

fn add_location(distinct: &mut Vec<String>, x: &String)
    requires
        str_views(old(distinct)@).no_duplicates(),
    ensures
        str_views(final(distinct)@).no_duplicates(),
        str_views(final(distinct)@).to_set() == str_views(old(distinct)@).to_set().insert(x@),
{
    let xc = chars_of(x.as_str());
    let ghost s = str_views(distinct@);
    let mut i: usize = 0;
    while i < distinct.len()
        invariant
            i <= distinct@.len(),
            s == str_views(distinct@),
            s.no_duplicates(),
            xc@ == x@,
            forall|k: int| 0 <= k < i ==> s[k] != x@,
        decreases distinct.len() - i,
    {
        if chars_eq(&chars_of(distinct[i].as_str()), &xc) {
            assert(s[i as int] == x@);
            assert(s.to_set().contains(x@));
            assert(s.to_set().insert(x@) =~= s.to_set());
            return;
        }
        i = i + 1;
    }
    distinct.push(x.clone());
    let ghost t = str_views(distinct@);
    assert(t == s.push(x@));
    assert(t.to_set() =~= s.to_set().insert(x@)) by {
        assert forall|y: Seq<char>| t.to_set().contains(y) <==> s.to_set().insert(x@).contains(y) by {
            if t.contains(y) {
                let k = choose|k: int| 0 <= k < t.len() && t[k] == y;
                if k < s.len() {
                    assert(s[k] == y);
                }
            }
            if s.contains(y) {
                let k = choose|k: int| 0 <= k < s.len() && s[k] == y;
                assert(t[k] == y);
            }
            if y == x@ {
                assert(t[s.len() as int] == y);
            }
        }
    }
}

proof fn lemma_push_to_set<A>(s: Seq<A>, x: A)
    ensures
        s.push(x).to_set() == s.to_set().insert(x),
{
    let t = s.push(x);
    assert forall|y: A| t.to_set().contains(y) <==> s.to_set().insert(x).contains(y) by {
        if t.contains(y) {
            let k = choose|k: int| 0 <= k < t.len() && t[k] == y;
            if k < s.len() {
                assert(s[k] == y);
            }
        }
        if s.contains(y) {
            let k = choose|k: int| 0 <= k < s.len() && s[k] == y;
            assert(t[k] == y);
        }
        if y == x {
            assert(t[s.len() as int] == y);
        }
    }
    assert(t.to_set() =~= s.to_set().insert(x));
}

/// The projects that each connector serves, in order, and the number of
/// distinct chats and GitHub locations among them.
pub fn connector_links(projects: &Vec<ProjectConnectorFacts>) -> (r: ConnectorLinks)
    ensures
        str_views(r.telegram_project_ids@) == telegram_projects(projects@),
        str_views(r.github_project_ids@) == github_projects(projects@),
        r.telegram_sources == all_chats(projects@).to_set().len(),
        r.github_sources == all_locations(projects@).to_set().len(),
{
    let mut tp: Vec<String> = Vec::new();
    let mut gp: Vec<String> = Vec::new();
    let mut chats: Vec<i64> = Vec::new();
    let mut locations: Vec<String> = Vec::new();
    let mut i: usize = 0;
    while i < projects.len()
        invariant
            i <= projects@.len(),
            str_views(tp@) == telegram_projects(projects@.take(i as int)),
            str_views(gp@) == github_projects(projects@.take(i as int)),
            chats@.no_duplicates(),
            chats@.to_set() == all_chats(projects@.take(i as int)).to_set(),
            str_views(locations@).no_duplicates(),
            str_views(locations@).to_set() == all_locations(projects@.take(i as int)).to_set(),
        decreases projects.len() - i,
    {
        let p = &projects[i];
        assert(projects@.take(i + 1).drop_last() == projects@.take(i as int));
        assert(projects@.take(i + 1).last() == *p);
        if p.chat_ids.len() > 0 {
            let ghost before = tp@;
            tp.push(p.project_id.clone());
            assert(str_views(tp@) == str_views(before).push(p.project_id@));
        }
        if p.github_locations.len() > 0 {
            let ghost before = gp@;
            gp.push(p.project_id.clone());
            assert(str_views(gp@) == str_views(before).push(p.project_id@));
        }
        let ghost base = all_chats(projects@.take(i as int));
        let mut j: usize = 0;
        while j < p.chat_ids.len()
            invariant
                j <= p.chat_ids@.len(),
                chats@.no_duplicates(),
                chats@.to_set() == (base + p.chat_ids@.take(j as int)).to_set(),
            decreases p.chat_ids.len() - j,
        {
            add_chat(&mut chats, p.chat_ids[j]);
            assert(base + p.chat_ids@.take(j + 1) == (base + p.chat_ids@.take(j as int)).push(p.chat_ids@[j as int]));
            assert((base + p.chat_ids@.take(j + 1)).to_set() =~= (base + p.chat_ids@.take(j as int)).to_set().insert(p.chat_ids@[j as int])) by {
                lemma_push_to_set(base + p.chat_ids@.take(j as int), p.chat_ids@[j as int]);
            }
            j = j + 1;
        }
        assert(p.chat_ids@.take(p.chat_ids@.len() as int) == p.chat_ids@);
        let ghost lbase = all_locations(projects@.take(i as int));
        let ghost lv = str_views(p.github_locations@);
        let mut k: usize = 0;
        while k < p.github_locations.len()
            invariant
                k <= p.github_locations@.len(),
                lv == str_views(p.github_locations@),
                str_views(locations@).no_duplicates(),
                str_views(locations@).to_set() == (lbase + lv.take(k as int)).to_set(),
            decreases p.github_locations.len() - k,
        {
            add_location(&mut locations, &p.github_locations[k]);
            assert(lbase + lv.take(k + 1) == (lbase + lv.take(k as int)).push(lv[k as int]));
            assert((lbase + lv.take(k + 1)).to_set() =~= (lbase + lv.take(k as int)).to_set().insert(lv[k as int])) by {
                lemma_push_to_set(lbase + lv.take(k as int), lv[k as int]);
            }
            k = k + 1;
        }
        assert(lv.take(lv.len() as int) == lv);
        i = i + 1;
    }
    assert(projects@.take(projects@.len() as int) == projects@);
    proof {
        chats@.unique_seq_to_set();
        str_views(locations@).unique_seq_to_set();
    }
    let telegram_sources = chats.len();
    let github_sources = locations.len();
    ConnectorLinks { telegram_project_ids: tp, telegram_sources, github_project_ids: gp, github_sources }
}

} // verus!

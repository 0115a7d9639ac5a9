use flood_mcp::batch::{parse_source_media, SourceMediaArgs};
use flood_mcp::telegram::{
    candidate_text_summary, context_message_count, parse_candidate_status, participant_roles_after, telegram_chat_summary,
    context_window, media_request_readiness, saved_telegram_context, telegram_context_output, SavedTelegramSource, AgentCheckpoint, CandidateStatusChoice, MediaRequestState, ParticipantRole, ProjectChatLinks,
    TelegramContextMessage,
};

fn message(id: i64, media: usize, target: bool) -> TelegramContextMessage {
    TelegramContextMessage {
        message_id: id,
        message_ids: vec![id],
        author: "Ann".to_string(),
        sender_id: None,
        sender_username: None,
        is_outgoing: false,
        sent_at: (1_700_000_000, 0),
        text: format!("message {id}"),
        url: None,
        reply_to_message_id: None,
        is_target: target,
        media: (0..media)
            .map(|_| {
                parse_source_media(SourceMediaArgs {
                    kind: "photo".to_string(),
                    file_name: "p.jpg".to_string(),
                    provider_file_id: None,
                    mime_type: None,
                    size: None,
                    relative_path: None,
                })
                .unwrap()
            })
            .collect(),
    }
}

#[test]
fn candidate_text_is_compacted_and_flagged() {
    assert_eq!(candidate_text_summary("  a \n b  "), ("a b".to_string(), false));
    let long = "x".repeat(2001);
    let (text, truncated) = candidate_text_summary(&long);
    assert!(truncated);
    assert_eq!(text.chars().count(), 2001);
    assert!(text.ends_with('…'));
    assert!(!candidate_text_summary(&"y".repeat(2000)).1);
}

#[test]
fn context_counts_at_least_the_candidate() {
    assert_eq!(context_message_count(0), 1);
    assert_eq!(context_message_count(4), 4);
}

#[test]
fn context_output_uses_saved_discussion_or_the_candidate() {
    let out = telegram_context_output(message(7, 2, true), Vec::new());
    assert_eq!(out.message_count, 1);
    assert_eq!(out.media_count, 2);
    assert_eq!(out.messages[0].message_id, 7);
    assert!(out.bounded);
    let out = telegram_context_output(message(7, 2, true), vec![message(5, 1, false), message(7, 0, true), message(8, 3, false)]);
    assert_eq!(out.message_count, 3);
    assert_eq!(out.media_count, 4);
    assert_eq!(out.messages.iter().map(|m| m.message_id).collect::<Vec<_>>(), vec![5, 7, 8]);
}

#[test]
fn chat_summary_counts_messages_after_the_checkpoint() {
    let links = vec![
        ProjectChatLinks { project_id: "p1".to_string(), chat_ids: vec![10, 20] },
        ProjectChatLinks { project_id: "p2".to_string(), chat_ids: vec![30] },
        ProjectChatLinks { project_id: "p3".to_string(), chat_ids: vec![20] },
    ];
    let checkpoints = vec![
        AgentCheckpoint { chat_id: 20, last_read_message_id: 5 },
        AgentCheckpoint { chat_id: 20, last_read_message_id: 1 },
    ];
    let s = telegram_chat_summary(20, &vec![3, 5, 6, 9], &links, &checkpoints, None).unwrap();
    assert_eq!(s.project_ids, vec!["p1".to_string(), "p3".to_string()]);
    assert_eq!((s.message_count, s.oldest_message_id, s.newest_message_id), (4, Some(3), Some(9)));
    assert_eq!(s.agent_checkpoint_message_id, Some(5));
    assert_eq!(s.agent_unprocessed_count, Some(2));
    assert!(telegram_chat_summary(20, &vec![], &links, &checkpoints, Some("p2")).is_none());
    let s = telegram_chat_summary(30, &vec![], &links, &checkpoints, Some("p2")).unwrap();
    assert_eq!((s.oldest_message_id, s.agent_checkpoint_message_id, s.agent_unprocessed_count), (None, None, None));
}

fn role(sender: &str, role: &str, by_agent: bool) -> ParticipantRole {
    ParticipantRole {
        sender_id: sender.to_string(),
        display_name: sender.to_string(),
        username: None,
        role: role.to_string(),
        set_by_agent: by_agent,
    }
}

#[test]
fn participant_role_replaces_or_removes_the_senders_role() {
    let current = vec![role("user:1", "CEO", false), role("user:2", "QA", false), role("user:1", "old", true)];
    let after = participant_roles_after(
        "v1",
        "v1",
        current,
        " user:1 ",
        "Anna".to_string(),
        Some("anna".to_string()),
        "Backend + DevOps".to_string(),
    )
    .unwrap();
    let got: Vec<(String, String, bool)> = after.iter().map(|p| (p.sender_id.clone(), p.role.clone(), p.set_by_agent)).collect();
    assert_eq!(
        got,
        vec![
            ("user:2".to_string(), "QA".to_string(), false),
            ("user:1".to_string(), "Backend + DevOps".to_string(), true),
        ]
    );
    let removed =
        participant_roles_after("v1", "v1", vec![role("chat:5", "bot", false)], "chat:5", String::new(), None, "  ".to_string())
            .unwrap();
    assert!(removed.is_empty());
    assert_eq!(
        participant_roles_after("v2", "v1", Vec::new(), "user:1", String::new(), None, "x".to_string()).err().unwrap(),
        "project.md изменён; перечитайте проект и повторите изменение роли"
    );
    assert_eq!(
        participant_roles_after("v1", "v1", Vec::new(), "42", String::new(), None, "x".to_string()).err().unwrap(),
        "sender_id должен быть взят из Telegram-контекста flood.md"
    );
}

#[test]
fn candidate_status_names() {
    assert_eq!(parse_candidate_status("pending"), Ok(CandidateStatusChoice::Pending));
    assert_eq!(parse_candidate_status("dismissed"), Ok(CandidateStatusChoice::Dismissed));
    assert_eq!(parse_candidate_status("imported"), Err("status должен быть pending или dismissed".to_string()));
}

#[test]
fn images_are_read_only_when_ready() {
    assert!(media_request_readiness(MediaRequestState::Ready, None).is_ok());
    assert_eq!(media_request_readiness(MediaRequestState::Failed, Some("boom".to_string())), Err("boom".to_string()));
    assert_eq!(
        media_request_readiness(MediaRequestState::Failed, None),
        Err("Не удалось подготовить изображение Telegram".to_string())
    );
    assert_eq!(
        media_request_readiness(MediaRequestState::Pending, None),
        Err("Изображение ещё готовится; проверьте get_telegram_media_request".to_string())
    );
}

fn saved(context: Vec<TelegramContextMessage>) -> SavedTelegramSource {
    SavedTelegramSource {
        message_id: 7,
        message_ids: vec![],
        author: None,
        sent_at: None,
        text: "fix it".to_string(),
        url: None,
        chat_title: None,
        media: vec![],
        context,
    }
}

#[test]
fn saved_snapshot_stands_in_for_the_live_discussion() {
    let out = saved_telegram_context(saved(Vec::new()), (1_600_000_000, 5), "cache closed");
    assert_eq!(out.chat_title, "Telegram");
    assert_eq!(out.messages.len(), 1);
    let m = &out.messages[0];
    assert_eq!((m.message_id, m.message_ids.clone(), m.author.as_str()), (7, vec![7], "Неизвестный автор"));
    assert_eq!(m.sent_at, (1_600_000_000, 5));
    assert!(m.is_target);
    assert_eq!(out.media_count, 0);
    assert_eq!(out.warning, "Актуальный локальный контекст недоступен; используется сохранённый снимок задачи: cache closed");

    let mut grouped = message(3, 1, false);
    grouped.message_ids = vec![3, 7];
    let out = saved_telegram_context(saved(vec![message(2, 2, true), grouped, message(9, 0, false)]), (0, 0), "x");
    let targets: Vec<bool> = out.messages.iter().map(|m| m.is_target).collect();
    assert_eq!(targets, vec![false, true, false]);
    assert_eq!(out.media_count, 3);
}

#[test]
fn context_window_defaults_and_caps() {
    assert_eq!(context_window(None, None), (3, 3));
    assert_eq!(context_window(Some(0), Some(40)), (0, 10));
}

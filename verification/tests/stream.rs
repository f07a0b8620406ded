use sacode_cli::checkpoint::MessageRole;
use sacode_cli::completion::{response_role, ReplyRole};
use sacode_cli::conversation::{
    apply_stream_chunk, settle_reply, still_awaiting_reply, thinking_indicator_shown, StreamChunkKind, Message,
};
use sacode_cli::git_status::{repo_root, status_change_lines, status_panel, GitRun};
use sacode_cli::loop_task::RunState;
use sacode_cli::orchestration::{
    format_orchestration_details, i64_to_string, ConflictRecord, OrchestrationReport, PlannedRole, RoutePrimary,
    RouteRecord, SummaryItem, SummaryRecord,
};
use sacode_cli::report::merge_cli_response;
use sacode_cli::scroll::MessageScroll;
use sacode_cli::queue::{Enqueued, TaskQueue};

fn assistant(content: &str) -> Message {
    Message {
        role: MessageRole::Assistant,
        content: content.to_string(),
        thinking: String::new(),
        timestamp: "2026-06-05 00:00".to_string(),
        collapsed: false,
    }
}

fn s(x: &str) -> Option<String> {
    Some(x.to_string())
}

#[test]
fn handle_chat_stream_chunk_appends_to_last_assistant_message() {
    let mut messages = vec![assistant("")];
    assert!(apply_stream_chunk(&mut messages, Some(0), StreamChunkKind::Message, "hello"));
    assert!(apply_stream_chunk(&mut messages, Some(0), StreamChunkKind::Message, " world"));
    assert_eq!(messages.last().map(|m| m.content.as_str()), Some("hello world"));
}

#[test]
fn stream_chunks_without_placeholder_or_text_change_nothing() {
    let mut messages = vec![assistant("x")];
    assert!(!apply_stream_chunk(&mut messages, None, StreamChunkKind::Message, "hello"));
    assert!(!apply_stream_chunk(&mut messages, Some(0), StreamChunkKind::Message, ""));
    assert_eq!(messages[0].content, "x");
    assert!(!apply_stream_chunk(&mut messages, Some(0), StreamChunkKind::Thinking, "分析"));
    assert!(!apply_stream_chunk(&mut messages, Some(0), StreamChunkKind::Thinking, "调用链"));
    assert_eq!(messages[0].thinking, "分析调用链");
    assert!(messages[0].collapsed);
    assert_eq!(messages[0].content, "x");
}

#[test]
fn handle_chat_completed_reuses_streaming_placeholder_message() {
    let mut messages: Vec<Message> = Vec::new();
    let assistant_count_before = messages.iter().filter(|m| m.role == MessageRole::Assistant).count();
    messages.push(assistant("partial"));
    let role = match response_role(RunState::Completed) {
        ReplyRole::Assistant => MessageRole::Assistant,
        ReplyRole::System => MessageRole::System,
    };
    settle_reply(&mut messages, Some(0), role, "final answer".to_string(), "2026-06-05 00:01".to_string());
    let assistants: Vec<&Message> = messages.iter().filter(|m| m.role == MessageRole::Assistant).collect();
    assert_eq!(assistants.len(), assistant_count_before + 1);
    assert_eq!(assistants.last().map(|m| m.content.as_str()), Some("final answer"));
}

#[test]
fn settled_reply_without_placeholder_is_appended() {
    let mut messages = vec![assistant("a")];
    settle_reply(&mut messages, Some(5), MessageRole::System, "failed".to_string(), "t".to_string());
    assert_eq!(messages.len(), 2);
    assert_eq!(messages[1].content, "failed");
    assert_eq!(messages[1].role, MessageRole::System);
    assert!(!messages[1].collapsed);
    let mut m = assistant("partial");
    m.thinking = "thought".to_string();
    m.collapsed = true;
    let mut messages = vec![m];
    settle_reply(&mut messages, Some(0), MessageRole::Assistant, "done".to_string(), "t2".to_string());
    assert!(messages[0].collapsed);
    assert_eq!(messages[0].thinking, "thought");
    assert_eq!(messages[0].timestamp, "t2");
}

#[test]
fn streaming_chunk_keeps_user_scroll_position_when_not_following_bottom() {
    let mut scroll = MessageScroll { offset: 3, follow_bottom: false };
    let mut messages = vec![assistant("")];
    apply_stream_chunk(&mut messages, Some(0), StreamChunkKind::Message, "hello");
    scroll.pin_to_bottom_if_following(10);
    assert_eq!(scroll.offset, 3);
    assert!(!scroll.follow_bottom);
    let mut following = MessageScroll { offset: 3, follow_bottom: true };
    following.pin_to_bottom_if_following(10);
    assert_eq!(following.offset, 10);
}

#[test]
fn thinking_indicator_visible_before_first_chunk_and_hidden_after_chunk() {
    let processing = true;
    let active = Some(2);
    let mut awaiting = true;
    let mut messages = vec![assistant("")];
    assert!(thinking_indicator_shown(processing, awaiting));
    let arrived = apply_stream_chunk(&mut messages, Some(0), StreamChunkKind::Message, "answer");
    awaiting = still_awaiting_reply(awaiting, arrived, active, 2);
    assert!(!thinking_indicator_shown(processing, awaiting));
    // Text for another task does not end the wait.
    assert!(still_awaiting_reply(true, true, Some(3), 2));
}

#[test]
fn merge_cli_response_prefers_provider_response_and_ignores_events_when_present() {
    let response = merge_cli_response(Some("event fallback".to_string()), Some("final answer".to_string()));
    assert_eq!(response.as_deref(), Some("final answer"));
}

#[test]
fn merge_cli_response_falls_back_to_events() {
    let response = merge_cli_response(Some("event fallback".to_string()), None);
    assert_eq!(response.as_deref(), Some("event fallback"));
    assert_eq!(merge_cli_response(Some(" ".to_string()), Some("\n".to_string())), None);
    assert_eq!(
        merge_cli_response(Some("events".to_string()), Some("  ".to_string())).as_deref(),
        Some("events")
    );
}

#[test]
fn format_orchestration_details_includes_all_sections() {
    let report = OrchestrationReport {
        summary_record: Some(SummaryRecord {
            reporter_summary: s("主裁决结论"),
            overall_conclusion: None,
            recommended_next_action: None,
            key_risks: Vec::new(),
            items: vec![
                SummaryItem {
                    role_id: s("system-architect"),
                    route: s("deepseek/deepseek-reasoner"),
                    output: s("设计评估完成"),
                },
                SummaryItem { role_id: s("reporter"), route: s("deepseek/deepseek-reasoner"), output: s("汇总结论完成") },
            ],
        }),
        roles: vec![
            PlannedRole {
                role_id: s("system-architect"),
                preferred_model: s("deepseek/deepseek-reasoner"),
                needs_thinking: Some(true),
            },
            PlannedRole { role_id: s("reporter"), preferred_model: s("deepseek/deepseek-reasoner"), needs_thinking: Some(true) },
        ],
        route_records: vec![RouteRecord {
            role_id: s("system-architect"),
            primary: Some(RoutePrimary {
                provider_name: s("deepseek"),
                model_name: s("deepseek-reasoner"),
                route_score: Some(65),
                needs_thinking: Some(true),
            }),
        }],
        conflict_records: Some(vec![ConflictRecord {
            kind: s("validation_conflict"),
            summary: s("implementation completion conflicts with validation findings"),
        }]),
        conflicts: Vec::new(),
    };

    let summary = format_orchestration_details(&report).expect("summary should exist");

    assert!(summary.contains("[主裁决摘要]"));
    assert!(summary.contains("- reporter: 主裁决结论"));
    assert!(summary.contains("[编排角色]"));
    assert!(summary.contains("[角色路由]"));
    assert!(summary.contains("[冲突]"));
    assert!(summary.contains("- [验证冲突] implementation completion conflicts with validation findings"));
    assert!(summary.contains("- system-architect [deepseek/deepseek-reasoner]: 设计评估完成"));
    assert!(summary.contains("- reporter [deepseek/deepseek-reasoner]: 汇总结论完成"));
    assert_eq!(
        summary,
        "[主裁决摘要]\n- reporter: 主裁决结论\n- system-architect [deepseek/deepseek-reasoner]: 设计评估完成\n- reporter [deepseek/deepseek-reasoner]: 汇总结论完成\n[编排角色]\n- system-architect: deepseek/deepseek-reasoner thinking=true\n- reporter: deepseek/deepseek-reasoner thinking=true\n[角色路由]\n- system-architect: deepseek/deepseek-reasoner score=65 thinking=true\n[冲突]\n- [验证冲突] implementation completion conflicts with validation findings"
    );
}

#[test]
fn orchestration_defaults_and_plain_conflicts() {
    let report = OrchestrationReport {
        summary_record: Some(SummaryRecord {
            reporter_summary: s("   "),
            overall_conclusion: s(" overall "),
            recommended_next_action: s("ship it"),
            key_risks: vec![s("flaky"), None],
            items: vec![
                SummaryItem { role_id: None, route: None, output: s("dropped") },
                SummaryItem { role_id: s("coder"), route: None, output: s("  ") },
                SummaryItem { role_id: s("tester"), route: None, output: s(" ok ") },
            ],
        }),
        roles: vec![PlannedRole { role_id: s("coder"), preferred_model: None, needs_thinking: None }],
        route_records: vec![
            RouteRecord { role_id: s("coder"), primary: None },
            RouteRecord {
                role_id: s("tester"),
                primary: Some(RoutePrimary { provider_name: None, model_name: None, route_score: Some(-3), needs_thinking: None }),
            },
        ],
        conflict_records: None,
        conflicts: vec![s("a vs b"), None],
    };
    assert_eq!(
        format_orchestration_details(&report).unwrap(),
        "[主裁决摘要]\n- overall: overall\n- risk: flaky\n- next: ship it\n- tester [auto]: ok\n[编排角色]\n- coder: auto thinking=false\n[角色路由]\n- tester: auto/auto score=-3 thinking=false\n[冲突]\n- a vs b"
    );
    let empty = OrchestrationReport {
        summary_record: None,
        roles: Vec::new(),
        route_records: Vec::new(),
        conflict_records: Some(vec![ConflictRecord { kind: None, summary: None }]),
        conflicts: vec![s("ignored when records exist")],
    };
    assert_eq!(format_orchestration_details(&empty), None);
    let unknown = OrchestrationReport {
        summary_record: None,
        roles: Vec::new(),
        route_records: Vec::new(),
        conflict_records: Some(vec![ConflictRecord { kind: None, summary: s("x") }]),
        conflicts: Vec::new(),
    };
    assert_eq!(format_orchestration_details(&unknown).unwrap(), "[冲突]\n- [conflict] x");
    assert_eq!(i64_to_string(i64::MIN), "-9223372036854775808");
    assert_eq!(i64_to_string(0), "0");
}

#[test]
fn git_status_lines_drop_blanks_and_the_sacode_directory() {
    assert_eq!(
        status_change_lines(" M src/lib.rs\n?? .sacode/\n\n?? notes.md\r\n"),
        vec!["M src/lib.rs".to_string(), "?? notes.md".to_string()]
    );
    assert!(status_change_lines("").is_empty());
}

#[test]
fn git_panel_messages() {
    assert_eq!(repo_root(&GitRun::Ran(true, "/repo\n".to_string(), String::new())), Ok("/repo".to_string()));
    assert_eq!(repo_root(&GitRun::Ran(true, "  \n".to_string(), String::new())), Err("未检测到 Git 仓库".to_string()));
    assert_eq!(
        repo_root(&GitRun::Ran(false, String::new(), "fatal".to_string())),
        Err("当前目录不是 Git 仓库".to_string())
    );
    assert_eq!(repo_root(&GitRun::Failed("no git".to_string())), Err("读取 Git 仓库失败: no git".to_string()));
    assert_eq!(
        status_panel(&GitRun::Ran(false, String::new(), " bad \n".to_string())),
        vec!["git status 失败: bad".to_string()]
    );
    assert_eq!(status_panel(&GitRun::Failed("x".to_string())), vec!["读取 Git 变更失败: x".to_string()]);
    assert_eq!(status_panel(&GitRun::Ran(true, "A b\n".to_string(), String::new())), vec!["A b".to_string()]);
}

/// A message sent while task 1 streams: it is shown and waits in the queue.
fn send_while_running(messages: &mut Vec<Message>, queue: &mut TaskQueue, text: &str) {
    messages.push(Message {
        role: MessageRole::User,
        content: text.to_string(),
        thinking: String::new(),
        timestamp: "2026-06-05 00:00".to_string(),
        collapsed: false,
    });
    match queue.enqueue(text.to_string()) {
        Enqueued::Waiting(2, 0) => {}
        other => panic!("unexpected {:?}", other),
    }
}

fn running_queue() -> TaskQueue {
    let mut queue = TaskQueue::new();
    match queue.enqueue("第一个任务".to_string()) {
        Enqueued::Started(1, _) => {}
        other => panic!("unexpected {:?}", other),
    }
    queue
}

#[test]
fn queue_message_does_not_interrupt_existing_stream_output() {
    let mut queue = running_queue();
    let mut messages = vec![assistant("")];
    apply_stream_chunk(&mut messages, Some(0), StreamChunkKind::Message, "hello");
    send_while_running(&mut messages, &mut queue, "第二个任务");
    apply_stream_chunk(&mut messages, Some(0), StreamChunkKind::Message, " world");

    assert_eq!(messages[0].content, "hello world");
    assert!(messages.iter().any(|msg| msg.content.contains("第二个任务")));
}

#[test]
fn queue_message_does_not_interrupt_existing_thinking_output() {
    let mut queue = running_queue();
    let mut messages = vec![assistant("")];
    apply_stream_chunk(&mut messages, Some(0), StreamChunkKind::Thinking, "分析");
    send_while_running(&mut messages, &mut queue, "第二个任务");
    apply_stream_chunk(&mut messages, Some(0), StreamChunkKind::Thinking, "调用链");

    assert_eq!(messages[0].thinking, "分析调用链");
    assert!(messages[0].collapsed);
}

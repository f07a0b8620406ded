use sacode_cli::background::{
    clear_busy, handle_async_failure, init_busy_message, start_background, update_refusal, AsyncContext, Busy,
    FailureOutcome,
};
use sacode_cli::checkpoint::MessageRole;
use sacode_cli::conversation::{
    fold_all_assistant_messages, fold_message, fold_notice, last_assistant_index, toggle_fold_target, Message,
};
use sacode_cli::history::InputHistory;
use sacode_cli::optimize::{optimize_prompt, InputRewriter};
use sacode_cli::provider_config::{NamedProviderConfig, ProviderConfig};
use sacode_cli::queue::{busy_message, cleared_waiting_notice, current_model_name, waiting_notice, Enqueued, TaskQueue};
use sacode_cli::report::{format_cli_events, RunEvent};

fn msg(role: MessageRole, content: &str, collapsed: bool) -> Message {
    Message {
        role,
        content: content.to_string(),
        thinking: String::new(),
        timestamp: String::new(),
        collapsed,
    }
}

#[test]
fn first_message_starts_and_later_ones_wait_in_order() {
    let mut q = TaskQueue::new();
    match q.enqueue("one".to_string()) {
        Enqueued::Started(id, c) => {
            assert_eq!(id, 1);
            assert_eq!(c, "one");
        }
        other => panic!("unexpected {:?}", other),
    }
    match q.enqueue("two".to_string()) {
        Enqueued::Waiting(id, ahead) => {
            assert_eq!(id, 2);
            assert_eq!(ahead, 0);
        }
        other => panic!("unexpected {:?}", other),
    }
    match q.enqueue("three".to_string()) {
        Enqueued::Waiting(id, ahead) => {
            assert_eq!(id, 3);
            assert_eq!(ahead, 1);
        }
        other => panic!("unexpected {:?}", other),
    }
    // Nothing starts while task 1 runs.
    assert!(q.start_next().is_none());
    q.finish_active();
    let next = q.start_next().expect("task 2 starts");
    assert_eq!(next.id, 2);
    assert_eq!(next.content, "two");
    assert_eq!(q.active_task_id, Some(2));
    q.finish_active();
    let next = q.start_next().expect("task 3 starts");
    assert_eq!(next.id, 3);
    q.finish_active();
    assert!(q.start_next().is_none());
    assert!(!q.processing);
}

#[test]
fn cancelled_task_result_is_dropped_once() {
    let mut q = TaskQueue::new();
    assert_eq!(q.cancel_active(), None);
    q.enqueue("job".to_string());
    assert_eq!(q.cancel_active(), Some(1));
    assert_eq!(q.cancel_active(), Some(1));
    assert_eq!(q.canceled, vec![1]);
    assert!(!q.take_canceled(2));
    assert!(q.take_canceled(1));
    assert!(!q.take_canceled(1));
    assert!(q.canceled.is_empty());
}

#[test]
fn queue_notices() {
    assert_eq!(waiting_notice(7, 2), "任务已加入等待队列 #7，前方还有 2 项。");
    assert_eq!(busy_message(12, "openai:gpt"), "正在执行 #12，模型 openai:gpt，Esc 取消当前任务");
    assert_eq!(current_model_name(&None), "内置执行");
    let p = NamedProviderConfig {
        name: "openai".to_string(),
        config: ProviderConfig {
            base_url: "https://api.example.com".to_string(),
            api_key: "k".to_string(),
            model: "gpt-4o".to_string(),
        },
    };
    assert_eq!(current_model_name(&Some(p)), "openai:gpt-4o");
}

#[test]
fn history_up_and_down_keep_the_draft() {
    let mut h = InputHistory {
        sent: vec!["first".to_string(), "second".to_string()],
        index: None,
        draft: String::new(),
        input: "typing".to_string(),
    };
    h.navigate_up();
    assert_eq!(h.input, "second");
    assert_eq!(h.draft, "typing");
    h.navigate_up();
    assert_eq!(h.input, "first");
    h.navigate_up();
    assert_eq!(h.input, "first");
    assert_eq!(h.index, Some(0));
    h.navigate_down();
    assert_eq!(h.input, "second");
    h.navigate_down();
    assert_eq!(h.input, "typing");
    assert_eq!(h.index, None);
    assert_eq!(h.draft, "");
    h.navigate_down();
    assert_eq!(h.input, "typing");
}

#[test]
fn history_up_with_nothing_sent_changes_nothing() {
    let mut h = InputHistory { sent: Vec::new(), index: None, draft: String::new(), input: "x".to_string() };
    h.navigate_up();
    assert_eq!(h.input, "x");
    assert_eq!(h.index, None);
}

#[test]
fn rewrite_preview_apply_and_undo() {
    assert_eq!(optimize_prompt("Rewrite:", "hello"), "Rewrite:\n\nhello");
    let mut r = InputRewriter { input: "draft".to_string(), pending: None, last: None, previewing: false };
    let notice = r.receive("draft".to_string(), "  better draft \n", "m1");
    assert_eq!(notice, "m1 已返回输入优化建议，按 Enter 应用，按 Esc 取消。");
    assert!(r.previewing);
    assert_eq!(r.pending.as_ref().unwrap().optimized, "better draft");
    let applied = r.apply();
    assert_eq!(applied.as_deref(), Some("已使用 m1 优化当前输入，Ctrl+Z 可撤回"));
    assert_eq!(r.input, "better draft");
    assert!(!r.previewing);
    assert_eq!(r.undo(), "已撤回 m1 的输入优化");
    assert_eq!(r.input, "draft");
    assert_eq!(r.undo(), "当前没有可撤回的输入优化记录。");
}

#[test]
fn rewrite_edge_cases() {
    let mut r = InputRewriter { input: "old".to_string(), pending: None, last: None, previewing: false };
    assert_eq!(r.receive("orig".to_string(), "   ", "m"), "输入优化未返回结果，保留原始内容。");
    assert_eq!(r.input, "orig");
    assert!(r.pending.is_none());
    assert!(r.apply().is_none());
    r.receive("orig".to_string(), "new", "m");
    assert_eq!(r.cancel(), "已取消本次输入优化预览。");
    assert!(r.pending.is_none());
    assert!(!r.previewing);
    r.receive("orig".to_string(), "new", "m");
    r.apply();
    r.input.push('!');
    assert_eq!(r.undo(), "当前输入已变化，保留现有内容。请手动调整后继续。");
    assert_eq!(r.input, "new!");
    assert!(r.last.is_some());
}

#[test]
fn ctrl_s_folds_then_unfolds_all_replies() {
    let mut m = vec![
        msg(MessageRole::User, "q", false),
        msg(MessageRole::Assistant, "a1", true),
        msg(MessageRole::Assistant, "a2", false),
    ];
    assert!(toggle_fold_target(&m));
    let changed = fold_all_assistant_messages(&mut m, true);
    assert_eq!(changed, 1);
    assert!(m[1].collapsed && m[2].collapsed);
    assert!(!m[0].collapsed);
    assert_eq!(fold_notice(changed), "已更新 1 条助手回复的折叠状态。");
    assert!(!toggle_fold_target(&m));
    let changed = fold_all_assistant_messages(&mut m, false);
    assert_eq!(changed, 2);
    assert!(!m[1].collapsed && !m[2].collapsed);
    assert_eq!(fold_all_assistant_messages(&mut m, false), 0);
    assert_eq!(fold_notice(0), "当前没有需要更新折叠状态的助手回复。");
}

#[test]
fn child_run_events_become_lines() {
    let events = vec![
        RunEvent::Message("hi".to_string()),
        RunEvent::Thinking("hmm".to_string()),
        RunEvent::ToolStarted("read".to_string()),
        RunEvent::ToolFinished("read".to_string(), true, String::new()),
        RunEvent::ToolFinished("write".to_string(), true, "3 lines".to_string()),
        RunEvent::ToolFinished("exec".to_string(), false, String::new()),
        RunEvent::ToolFinished("exec".to_string(), false, "boom".to_string()),
        RunEvent::Other,
        RunEvent::Done("all done".to_string()),
        RunEvent::Error("bad".to_string()),
    ];
    let text = format_cli_events(&events).expect("lines");
    assert_eq!(
        text,
        "hi\n[思考] hmm\n[工具] read ...running\n[工具] read 完成 ✓\n[工具] write 完成 ✓: 3 lines\n[工具] exec 失败 ✗\n[工具] exec 失败 ✗: boom\nall done\n[错误] bad"
    );
    assert_eq!(format_cli_events(&vec![RunEvent::Other]), None);
    assert_eq!(format_cli_events(&Vec::new()), None);
}

#[test]
fn compress_failure_resets_busy_state() {
    let mut queue = TaskQueue::new();
    let mut busy = Busy { started: false, spinner_index: 3, message: String::new() };
    start_background(&mut queue, &mut busy, "正在压缩".to_string());
    assert!(queue.processing);
    assert!(busy.started);

    let outcome = handle_async_failure(&mut queue, &mut busy, AsyncContext::CompressContext, true);

    assert!(!queue.processing);
    assert!(busy.message.is_empty());
    assert!(!busy.started);
    assert_eq!(outcome, FailureOutcome { back_to_chat: true, start_next: true });
}

#[test]
fn input_rewrite_failure_only_clears_the_indicator() {
    let mut queue = TaskQueue::new();
    queue.enqueue("running".to_string());
    let mut busy = Busy { started: true, spinner_index: 2, message: "正在优化".to_string() };
    let outcome = handle_async_failure(&mut queue, &mut busy, AsyncContext::OptimizeInput, false);
    assert!(queue.processing);
    assert_eq!(queue.active_task_id, Some(1));
    assert!(busy.started);
    assert!(busy.message.is_empty());
    assert_eq!(outcome, FailureOutcome { back_to_chat: true, start_next: false });
    let outcome = handle_async_failure(&mut queue, &mut busy, AsyncContext::Update, true);
    assert!(!outcome.back_to_chat);
    assert_eq!(queue.active_task_id, None);
}

#[test]
fn background_work_messages() {
    let mut queue = TaskQueue::new();
    let mut busy = Busy { started: false, spinner_index: 0, message: String::new() };
    start_background(&mut queue, &mut busy, init_busy_message(true).to_string());
    assert_eq!(busy.message, "正在生成深度初始化文件...");
    assert_eq!(init_busy_message(false), "正在生成项目初始化文件...");
    assert_eq!(update_refusal(queue.processing), Some("当前有任务正在执行，请等待完成后再更新 sacode。"));
    clear_busy(&mut queue, &mut busy);
    assert!(!queue.processing);
    assert!(busy.started);
    assert_eq!(update_refusal(queue.processing), None);
}

#[test]
fn last_reply_is_found_and_folded_once() {
    let mut m = vec![
        msg(MessageRole::Assistant, "a1", false),
        msg(MessageRole::Assistant, "a2", false),
        msg(MessageRole::User, "q", false),
    ];
    assert_eq!(last_assistant_index(&m), Some(1));
    assert!(fold_message(&mut m, 1, true));
    assert!(!fold_message(&mut m, 1, true));
    assert!(m[1].collapsed && !m[0].collapsed);
    assert!(!fold_message(&mut m, 9, true));
    assert_eq!(last_assistant_index(&vec![msg(MessageRole::User, "q", false)]), None);
}

#[test]
fn sending_records_history_and_ends_browsing() {
    let mut h = InputHistory { sent: vec!["a".to_string()], index: Some(0), draft: "d".to_string(), input: "a".to_string() };
    h.record_sent("  next message \n");
    assert_eq!(h.sent, vec!["a".to_string(), "next message".to_string()]);
    assert_eq!(h.index, None);
    assert_eq!(h.draft, "");
    h.record_sent("   ");
    assert_eq!(h.sent.len(), 2);
    h.input = String::new();
    h.navigate_up();
    assert_eq!(h.input, "next message");
}

#[test]
fn cancel_clears_the_waiting_line() {
    let mut q = TaskQueue::new();
    q.enqueue("a".to_string());
    q.enqueue("b".to_string());
    q.enqueue("c".to_string());
    q.finish_active();
    assert_eq!(q.clear_waiting(), 2);
    assert!(q.queued.is_empty());
    assert_eq!(cleared_waiting_notice(2), "已清空等待队列，共移除 2 项。");
    assert_eq!(cleared_waiting_notice(0), "当前没有正在执行或等待中的任务。");
    assert_eq!(q.clear_waiting(), 0);
}

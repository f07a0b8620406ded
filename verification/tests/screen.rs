use sacode_cli::checkpoint::MessageRole;
use sacode_cli::completion::{completion_plan, with_execution_hint, CompletionPlan, ReplyRole};
use sacode_cli::conversation::{settle_reply, Message};
use sacode_cli::input::InputMode;
use sacode_cli::interaction::{ExecutionMode, InteractionState};
use sacode_cli::keys::{ChatAction, EscAction};
use sacode_cli::loop_task::RunState;
use sacode_cli::queue::TaskQueue;
use sacode_cli::report::PlanStep;
use sacode_cli::screen::{apply_chat_action, enter_todo_confirmation, press_escape, ScreenState};
use sacode_cli::todo::capture_todo_plan;

fn screen(input: &str, mode: InputMode) -> ScreenState {
    ScreenState {
        input: input.to_string(),
        input_mode: mode,
        interaction: InteractionState::Idle,
        execution_mode: ExecutionMode::Build,
        thinking: false,
        orchestration_summary: None,
    }
}

#[test]
fn escape_leaves_command_list_and_question_with_a_clear_line() {
    let mut queue = TaskQueue::new();
    let mut s = screen("/mo", InputMode::CommandLevel1);
    assert_eq!(press_escape(&mut s, &mut queue, None), EscAction::LeaveLevel1);
    assert_eq!(s.input, "");
    assert_eq!(s.input_mode, InputMode::Chat);

    let mut s = screen("部分回答", InputMode::PendingQuestion);
    s.interaction = InteractionState::WaitingForQuestion;
    assert_eq!(press_escape(&mut s, &mut queue, None), EscAction::LeaveQuestion);
    assert_eq!(s.input, "");
    assert_eq!(s.input_mode, InputMode::Chat);
    assert_eq!(s.interaction, InteractionState::WaitingForQuestion);

    let mut s = screen("/model x", InputMode::CommandLevel2);
    assert_eq!(press_escape(&mut s, &mut queue, Some("/model")), EscAction::BackToLevel1);
    assert_eq!(s.input, "/model");
    assert_eq!(s.input_mode, InputMode::CommandLevel1);
}

#[test]
fn escape_while_busy_cancels_the_running_task() {
    let mut queue = TaskQueue::new();
    let _ = queue.enqueue("修复登录".to_string());
    let mut s = screen("草稿", InputMode::Chat);
    assert_eq!(press_escape(&mut s, &mut queue, None), EscAction::CancelTask);
    assert_eq!(s.input, "草稿");
    assert_eq!(s.input_mode, InputMode::Chat);
    assert_eq!(queue.canceled, vec![1]);
    assert!(queue.take_canceled(1));
}

#[test]
fn escape_leaves_todo_confirmation_idle() {
    let mut queue = TaskQueue::new();
    let mut s = screen("", InputMode::TodoConfirm);
    s.interaction = InteractionState::TodoConfirmation;
    assert_eq!(press_escape(&mut s, &mut queue, None), EscAction::CancelTodo);
    assert_eq!(s.interaction, InteractionState::Idle);
    assert_eq!(s.input_mode, InputMode::Chat);
}

#[test]
fn ctrl_t_flips_thinking_and_keeps_the_line_and_mode() {
    let mut s = screen("写测试", InputMode::Chat);
    apply_chat_action(&mut s, ChatAction::ToggleThinking);
    assert!(s.thinking);
    assert_eq!(s.input, "写测试");
    assert_eq!(s.execution_mode, ExecutionMode::Build);
    apply_chat_action(&mut s, ChatAction::ToggleThinking);
    assert!(!s.thinking);
}

#[test]
fn alt_m_and_slash_change_mode_and_open_commands() {
    let mut s = screen("", InputMode::Chat);
    apply_chat_action(&mut s, ChatAction::CycleMode);
    assert_eq!(s.execution_mode, ExecutionMode::Yolo);
    apply_chat_action(&mut s, ChatAction::OpenCommands);
    assert_eq!(s.input, "/");
    assert_eq!(s.input_mode, InputMode::CommandLevel1);
}

#[test]
fn plan_mode_plan_completion_appends_execution_hint_and_enters_todo_confirm() {
    let mut s = screen("", InputMode::Chat);
    s.execution_mode = ExecutionMode::Plan;
    let mut messages = vec![Message {
        role: MessageRole::Assistant,
        content: String::new(),
        thinking: String::new(),
        timestamp: "2026-06-05 00:00".to_string(),
        collapsed: false,
    }];
    let plan = completion_plan(false, true, Some(RunState::Completed), true, false, None, false, None);
    let role = match plan {
        CompletionPlan::Settle { role: ReplyRole::Assistant, .. } => MessageRole::Assistant,
        other => panic!("unexpected plan {:?}", other),
    };
    settle_reply(
        &mut messages,
        Some(0),
        role,
        "1. 检查配置\n2. 执行发布\n3. 验证结果".to_string(),
        "2026-06-05 00:01".to_string(),
    );
    let steps = vec![
        PlanStep { id: 1, description: "检查配置".to_string(), status: "pending".to_string() },
        PlanStep { id: 2, description: "执行发布".to_string(), status: "pending".to_string() },
    ];
    let todo = capture_todo_plan("规划发布流程", &steps);
    assert!(todo.is_some());
    messages[0].content = with_execution_hint(&messages[0].content);
    enter_todo_confirmation(&mut s, todo.is_some());

    assert_eq!(s.interaction, InteractionState::TodoConfirmation);
    assert_eq!(s.input_mode, InputMode::TodoConfirm);
    assert!(messages.iter().any(|msg| msg.content.contains("[执行确认]")));
    assert!(messages.iter().any(|msg| msg.content.contains("/todo confirm")));
}

#[test]
fn a_plan_outside_plan_mode_does_not_ask_for_confirmation() {
    let mut s = screen("", InputMode::Chat);
    enter_todo_confirmation(&mut s, true);
    assert_eq!(s.interaction, InteractionState::Idle);
    assert_eq!(s.input_mode, InputMode::Chat);
}

#[test]
fn reset_orchestration_summary_clears_previous_value() {
    let mut s = screen("", InputMode::Chat);
    s.orchestration_summary = Some("old summary".to_string());
    s.reset_orchestration_summary();
    assert!(s.orchestration_summary.is_none());
}

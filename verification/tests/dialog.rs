use sacode_cli::interaction::{
    approval_message, approval_outcome, current_task_approval_policy, decorate_pending_answer,
    format_pending_question, ApprovalOutcome, ApprovalPolicy, DialogStep, ExecutionMode,
    PendingQuestionItem, PendingQuestionOption, QuestionDialog,
};
use sacode_cli::interaction::{should_resume_pending_question_on_enter, waiting_question_notice, InteractionState};
use sacode_cli::input::InputMode;

fn option(label: &str) -> PendingQuestionOption {
    PendingQuestionOption { label: label.to_string(), description: String::new() }
}

fn question(text: &str, options: Vec<PendingQuestionOption>, multiple: bool) -> PendingQuestionItem {
    PendingQuestionItem { question: text.to_string(), options, allow_multiple: multiple }
}

#[test]
fn pending_question_enter_advances_then_enters_confirm_state() {
    let mut dialog = QuestionDialog::new(
        vec![question("Q1", vec![option("A")], false), question("Q2", vec![option("B")], false)],
        "title",
    );

    dialog.toggle_option();
    let step = dialog.advance_or_confirm();
    assert!(matches!(step, DialogStep::Advanced));
    assert_eq!(dialog.selected_question, 1);
    assert!(!dialog.confirm_submission);

    dialog.toggle_option();
    let step = dialog.advance_or_confirm();
    assert!(matches!(step, DialogStep::AwaitingConfirm));
    assert!(dialog.confirm_submission);
}

#[test]
fn pending_question_submit_collects_all_answers() {
    let mut dialog = QuestionDialog::new(
        vec![question("Q1", vec![option("A")], false), question("Q2", Vec::new(), false)],
        "title",
    );

    dialog.toggle_option();
    dialog.advance_or_confirm();
    dialog.input = "自定义回答".to_string();
    dialog.advance_or_confirm();

    let answer = dialog.answer_lines().join("\n");
    assert!(dialog.confirm_submission);
    assert!(answer.contains("Q1: A"));
    assert!(answer.contains("Q2: 自定义回答"));
}

#[test]
fn confirmed_choices_are_submitted() {
    let mut dialog = QuestionDialog::new(
        vec![question("Q1", vec![option("A")], false), question("Q2", vec![option("B")], false)],
        "title",
    );
    dialog.toggle_option();
    dialog.advance_or_confirm();
    dialog.toggle_option();
    dialog.advance_or_confirm();
    match dialog.advance_or_confirm() {
        DialogStep::Submit(text) => assert_eq!(text, "Q1: A\nQ2: B"),
        _ => panic!("expected a submission"),
    }
}

#[test]
fn enter_without_answer_asks_for_one() {
    let mut dialog = QuestionDialog::new(vec![question("Q1", vec![option("A")], false)], "t");
    let step = dialog.advance_or_confirm();
    assert!(matches!(step, DialogStep::NeedCurrentAnswer));
    assert_eq!(
        step.notice().as_deref(),
        Some("请先为当前问题选择选项或输入自定义回答，然后再继续。")
    );
    assert_eq!(dialog.selected_question, 0);
}

#[test]
fn unanswered_earlier_question_blocks_confirmation() {
    let mut dialog = QuestionDialog::new(
        vec![question("Q1", vec![option("A")], false), question("Q2", vec![option("B")], false)],
        "t",
    );
    dialog.move_question_tab(1);
    assert_eq!(dialog.selected_question, 1);
    dialog.toggle_option();
    let step = dialog.advance_or_confirm();
    assert!(matches!(step, DialogStep::Unanswered));
    assert_eq!(step.notice().as_deref(), Some("仍有未回答的问题，请补全后再确认提交。"));
    assert!(!dialog.confirm_submission);
}

#[test]
fn empty_question_list_gets_the_title_as_question() {
    let dialog = QuestionDialog::new(Vec::new(), "继续吗？");
    assert_eq!(dialog.items.len(), 1);
    assert_eq!(dialog.items[0].question, "继续吗？");
    assert_eq!(dialog.answer_lines(), vec!["继续吗？: 未回答".to_string()]);
}

#[test]
fn multiple_choice_labels_are_sorted_and_toggle_back() {
    let mut dialog = QuestionDialog::new(
        vec![question("Pick", vec![option("b"), option("a"), option("c")], true)],
        "t",
    );
    dialog.toggle_option();
    dialog.move_option(1);
    dialog.toggle_option();
    assert_eq!(dialog.answer_lines(), vec!["Pick: a, b".to_string()]);
    dialog.toggle_option();
    assert_eq!(dialog.answer_lines(), vec!["Pick: b".to_string()]);
    dialog.toggle_option();
    assert_eq!(dialog.answer_lines(), vec!["Pick: a, b".to_string()]);
}

#[test]
fn single_choice_keeps_only_the_last_option() {
    let mut dialog =
        QuestionDialog::new(vec![question("Pick", vec![option("x"), option("y")], false)], "t");
    dialog.toggle_option();
    dialog.move_option(1);
    dialog.toggle_option();
    assert_eq!(dialog.answers[0], vec![1]);
    dialog.move_option(1);
    assert_eq!(dialog.selected_option, 0);
    dialog.move_option(-1);
    assert_eq!(dialog.selected_option, 1);
}

#[test]
fn moving_between_questions_keeps_typed_answers() {
    let mut dialog = QuestionDialog::new(
        vec![question("Q1", Vec::new(), false), question("Q2", Vec::new(), false)],
        "t",
    );
    dialog.input = "first".to_string();
    dialog.move_question_tab(1);
    assert_eq!(dialog.input, "");
    dialog.input = "second".to_string();
    dialog.move_question_tab(-1);
    assert_eq!(dialog.input, "first");
    assert_eq!(dialog.custom_answers[1], "second");
    dialog.move_question_tab(-1);
    assert_eq!(dialog.selected_question, 1);
}

#[test]
fn confirming_unanswered_questions_still_reports_them() {
    let mut dialog = QuestionDialog::new(vec![question("", Vec::new(), false)], "t");
    dialog.confirm_submission = true;
    match dialog.advance_or_confirm() {
        DialogStep::Submit(text) => assert_eq!(text, ": 未回答"),
        _ => panic!("expected a submission"),
    }
    assert_eq!(dialog.input, "");
}

#[test]
fn plan_mode_uses_builtin_approval_policy() {
    assert_eq!(current_task_approval_policy(ExecutionMode::Plan, false), ApprovalPolicy::AutoApprove);
}

#[test]
fn build_mode_asks_unless_session_approved() {
    assert_eq!(current_task_approval_policy(ExecutionMode::Build, false), ApprovalPolicy::Prompt);
    assert_eq!(current_task_approval_policy(ExecutionMode::Build, true), ApprovalPolicy::AutoApprove);
    assert_eq!(current_task_approval_policy(ExecutionMode::Yolo, false), ApprovalPolicy::AutoApprove);
}

#[test]
fn approval_answers_map_to_outcomes() {
    assert_eq!(approval_outcome(None), ApprovalOutcome::NoSelection);
    assert_eq!(approval_outcome(Some(0)), ApprovalOutcome::Denied);
    assert_eq!(approval_outcome(Some(2)), ApprovalOutcome::AllowedForSession);
    assert_eq!(approval_outcome(Some(9)), ApprovalOutcome::Unrecognized);
    assert_eq!(approval_message(ApprovalOutcome::Denied, "bash"), "已拒绝工具 bash 的权限授权请求。");
}

#[test]
fn decorated_answer_quotes_question_and_trimmed_answer() {
    let s = decorate_pending_answer("Q?", "  yes ");
    assert_eq!(
        s,
        "你上一轮通过 interaction.ask 提出了这个问题：\nQ?\n\n用户给出的回答是：\nyes\n\n请基于这个回答继续完成原任务。"
    );
}

#[test]
fn question_summary_lists_options() {
    assert_eq!(format_pending_question("Q", &Vec::new()), "[等待用户回答] Q");
    assert_eq!(
        format_pending_question("Q", &vec!["A".to_string(), "B".to_string()]),
        "[等待用户回答] Q\n可选项: A, B"
    );
}

#[test]
fn enter_on_empty_chat_line_resumes_a_waiting_question() {
    assert!(should_resume_pending_question_on_enter(InteractionState::WaitingForQuestion, InputMode::Chat, "  "));
    assert!(should_resume_pending_question_on_enter(InteractionState::WaitingForApproval, InputMode::Chat, ""));
    assert!(!should_resume_pending_question_on_enter(InteractionState::WaitingForQuestion, InputMode::Chat, "继续"));
    assert!(!should_resume_pending_question_on_enter(InteractionState::WaitingForQuestion, InputMode::ModelSelect, ""));
}

#[test]
fn waiting_question_notice_names_the_question() {
    assert_eq!(
        waiting_question_notice("选择数据库"),
        "当前任务等待用户回答。可在等待问题面板中选择或输入自定义回答；Esc 返回聊天后普通输入会进入等待队列：选择数据库"
    );
}

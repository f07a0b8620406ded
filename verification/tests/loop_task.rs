use sacode_cli::completion::{completion_plan, CompletionPlan, drops_plan_approval, plan_approval_dropped_notice, response_role, with_execution_hint, canceled_task_notice, ReplyRole};
use sacode_cli::loop_task::{
    build_loop_prompt, build_loop_summary, loop_started_notice, loop_step_notice, merge_loop_summary, next_loop_step,
    reflection_hint, start_loop, waiting_for_user, LoopProgress, LoopStep, RunState,
};

fn progress(iteration: u32, max: u32, errors: u32) -> LoopProgress {
    LoopProgress { iteration, max_iterations: max, error_count: errors }
}

#[test]
fn loop_completion_enqueues_next_round_with_summary() {
    let state = progress(1, 3, 0);
    let response = "已完成第一轮检查，修复了配置问题。";
    let summary = merge_loop_summary("", response, false);
    let step = next_loop_step(Some(state), RunState::Completed, waiting_for_user(RunState::Completed, false), false);
    let next = match step {
        LoopStep::NextRound(p) => p,
        _ => panic!("next loop task should be queued"),
    };
    let queued = build_loop_prompt("检查项目", &summary, None);
    assert!(queued.contains("上一轮摘要"));
    assert!(queued.contains("已完成第一轮检查，修复了配置问题。"));
    assert_eq!(summary, "已完成第一轮检查，修复了配置问题。");
    assert_eq!((next.iteration, next.error_count), (2, 0));
}

#[test]
fn loop_round_limit_enqueues_next_round_with_scope_hint() {
    let state = progress(1, 3, 0);
    let summary = merge_loop_summary("", "本轮达到最大迭代次数。", true);
    let step = next_loop_step(Some(state), RunState::Failed, false, true);
    let next = match step {
        LoopStep::Retry(p) => p,
        _ => panic!("next loop task should be queued after round limit"),
    };
    let queued = build_loop_prompt("检查项目", &summary, Some(reflection_hint(true, next.error_count)));
    assert!(queued.contains("上一轮摘要"));
    assert!(queued.contains("本轮在达到最大迭代上限后停止。"));
    assert!(queued.contains("反思提示"));
    assert!(queued.contains("缩小处理范围"));
    assert_eq!((next.iteration, next.error_count), (2, 1));
}

#[test]
fn loop_stops_at_round_limit() {
    let step = next_loop_step(Some(progress(3, 3, 0)), RunState::Completed, false, false);
    assert_eq!(step, LoopStep::ReachedLimit);
    assert_eq!(
        loop_step_notice(step, 3, 3, false).as_deref(),
        Some("循环任务已达到最大轮次上限 3 次，自动停止。")
    );
}

#[test]
fn loop_stops_after_third_failure() {
    let step = next_loop_step(Some(progress(4, 10, 2)), RunState::Failed, false, false);
    assert_eq!(step, LoopStep::TooManyFailures(3));
    assert_eq!(
        loop_step_notice(step, 4, 10, false).as_deref(),
        Some("循环任务已连续失败 3 次，自动停止。修复后可重新执行 /loop。")
    );
}

#[test]
fn success_clears_the_failure_count() {
    let step = next_loop_step(Some(progress(2, 10, 2)), RunState::Completed, false, false);
    assert_eq!(step, LoopStep::NextRound(progress(3, 10, 0)));
    assert_eq!(loop_step_notice(step, 2, 10, false).as_deref(), Some("循环任务已完成第 2 轮，继续下一轮。"));
}

#[test]
fn waiting_or_unlooped_rounds_do_nothing() {
    assert_eq!(next_loop_step(None, RunState::Completed, false, false), LoopStep::Done);
    assert_eq!(next_loop_step(Some(progress(1, 3, 0)), RunState::WaitingForUser, true, false), LoopStep::Done);
    assert!(waiting_for_user(RunState::WaitingForApproval, false));
    assert!(!waiting_for_user(RunState::WaitingForApproval, true));
}

#[test]
fn retry_notice_names_failure_count() {
    let step = next_loop_step(Some(progress(1, 3, 0)), RunState::Failed, false, false);
    assert_eq!(
        loop_step_notice(step, 1, 3, false).as_deref(),
        Some("循环任务本轮失败（累计 1 次），注入反思信号后继续下一轮。")
    );
    assert_eq!(
        loop_step_notice(step, 1, 3, true).as_deref(),
        Some("循环任务第 1 轮触达单轮最大迭代上限，已缩小范围并继续下一轮（累计 1 次）。")
    );
    assert_eq!(reflection_hint(false, 2), "已连续两轮失败，请深入分析失败原因，检查是否有根本性问题。");
}

#[test]
fn long_summaries_are_cut() {
    let long = "字".repeat(1300);
    let s = build_loop_summary(&long, false);
    assert_eq!(s, format!("{}\n...(已截断)", "字".repeat(1200)));
    assert_eq!(build_loop_summary("   ", true), "");
    assert_eq!(merge_loop_summary(" prev ", "", false), "prev");
}

#[test]
fn loop_prompt_without_summary_or_hint_is_the_task() {
    assert_eq!(
        build_loop_prompt("t", "  ", Some("  ")),
        "循环执行下面的任务，持续检查结果并修复问题，直到任务达到可用完成态：t"
    );
}

#[test]
fn start_loop_reads_the_task_and_limit() {
    let s = start_loop("/loop  检查项目 ", Some(0)).expect("loop");
    assert_eq!(s.task, "检查项目");
    assert_eq!(s.progress, progress(1, 1, 0));
    assert_eq!(s.prompt, "循环执行下面的任务，持续检查结果并修复问题，直到任务达到可用完成态：检查项目");
    assert_eq!(start_loop("/loop", None).map(|s| s.task), None);
    assert_eq!(start_loop("/loop x", None).unwrap().progress.max_iterations, 10);
}

#[test]
fn plan_mode_swallow_tool_approval_without_entering_wait_state() {
    assert!(drops_plan_approval(true, Some("tool_approval")));
    assert!(!drops_plan_approval(false, Some("tool_approval")));
    assert!(!drops_plan_approval(true, Some("question")));
    assert!(plan_approval_dropped_notice().contains("Plan 模式已跳过需要额外权限的执行操作"));
    assert!(!waiting_for_user(RunState::WaitingForApproval, true));
}

#[test]
fn failed_runs_reply_as_system() {
    assert_eq!(response_role(RunState::Failed), ReplyRole::System);
    assert_eq!(response_role(RunState::Completed), ReplyRole::Assistant);
    assert_eq!(canceled_task_notice(12, "prompt"), "已取消任务 #12: prompt");
}

#[test]
fn loop_started_notice_repeats_the_task() {
    assert_eq!(
        loop_started_notice("修复测试"),
        "已开始循环执行任务。每轮完成后会自动继续，直到你取消、任务失败，或任务进入等待用户状态：修复测试"
    );
}

#[test]
fn completion_plan_of_a_canceled_task_shows_nothing() {
    let plan = completion_plan(true, true, Some(RunState::Completed), false, false, None, false, None);
    assert_eq!(plan, CompletionPlan::Canceled { was_active: true });
    let plan = completion_plan(true, false, None, false, false, None, false, None);
    assert_eq!(plan, CompletionPlan::Canceled { was_active: false });
}

#[test]
fn completion_plan_settles_and_steps_the_loop() {
    // No reported state counts as a failure: a system reply, and a retry.
    let plan = completion_plan(false, true, None, false, false, None, false, Some(progress(2, 5, 0)));
    assert_eq!(
        plan,
        CompletionPlan::Settle {
            role: ReplyRole::System,
            approval_dropped: false,
            keeps_question: false,
            step: LoopStep::Retry(progress(3, 5, 1)),
        }
    );
    // A plan-mode approval is dropped, and the loop goes on as if nothing waited.
    let plan = completion_plan(
        false, true, Some(RunState::WaitingForApproval), true, true, Some("tool_approval"), false,
        Some(progress(1, 3, 0)),
    );
    assert_eq!(
        plan,
        CompletionPlan::Settle {
            role: ReplyRole::Assistant,
            approval_dropped: true,
            keeps_question: false,
            step: LoopStep::Done,
        }
    );
    // A question outside plan mode stays waiting, and the loop stops there.
    let plan = completion_plan(
        false, true, Some(RunState::WaitingForUser), false, true, Some("question"), false,
        Some(progress(1, 3, 0)),
    );
    assert_eq!(
        plan,
        CompletionPlan::Settle {
            role: ReplyRole::Assistant,
            approval_dropped: false,
            keeps_question: true,
            step: LoopStep::Done,
        }
    );
    let plan = completion_plan(false, true, Some(RunState::Completed), false, false, None, false, Some(progress(1, 3, 0)));
    assert_eq!(
        plan,
        CompletionPlan::Settle {
            role: ReplyRole::Assistant,
            approval_dropped: false,
            keeps_question: false,
            step: LoopStep::NextRound(progress(2, 3, 0)),
        }
    );
}

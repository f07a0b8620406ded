//! What the interface makes of a finished chat task before the loop logic
//! runs: the role of the reply, whether a plan-mode approval request is
//! dropped, and the notices it shows.

use vstd::prelude::*;
use crate::loop_task::{RunState, LoopProgress, LoopStep, loop_step, waits_for_user, next_loop_step, waiting_for_user};
use crate::text::{contains, contains_str, to_chars, chars_eq, decimal, u64_to_string};

verus! {

/// Who a reply in the conversation is shown as coming from.
#[derive(Debug, Clone, Copy, PartialEq, Eq, Structural)]
pub enum ReplyRole {
    Assistant,
    System,
}

/// A failed run's reply is shown as a system message.
pub fn response_role(state: RunState) -> (r: ReplyRole)
    ensures
        r == (if state == RunState::Failed { ReplyRole::System } else { ReplyRole::Assistant }),
{
    if state == RunState::Failed {
        ReplyRole::System
    } else {
        ReplyRole::Assistant
    }
}

/// In plan mode a request to approve a tool is dropped: planning does not
/// run tools that need permission.
pub fn drops_plan_approval(plan_mode: bool, question_kind: Option<&str>) -> (r: bool)
    ensures
        r == (plan_mode && match question_kind {
            Some(k) => k@ == "tool_approval"@,
            None => false,
        }),
{
    plan_mode && match question_kind {
        Some(k) => chars_eq(to_chars(k).as_slice(), to_chars("tool_approval").as_slice()),
        None => false,
    }
}

/// The note shown when a plan-mode approval request was dropped.
pub fn plan_approval_dropped_notice() -> (r: &'static str)
    ensures
        r@ == "Plan 模式已跳过需要额外权限的执行操作，本轮继续保留规划结果。确认方案后切换到执行模式即可真正运行相关步骤。"@,
{
    "Plan 模式已跳过需要额外权限的执行操作，本轮继续保留规划结果。确认方案后切换到执行模式即可真正运行相关步骤。"
}

pub open spec fn execution_hint_text() -> Seq<char> {
    "\n\n[执行确认]\nPlan 模式规划已完成。按 Enter 或输入 /todo confirm 可切换到 Yolo 模式开始执行；按 Esc 保持在规划态继续调整方案。"@
}

/// The hint appended to a plan-mode reply that brought a plan.
pub fn plan_mode_execution_hint() -> (r: &'static str)
    ensures
        r@ == execution_hint_text(),
{
    "\n\n[执行确认]\nPlan 模式规划已完成。按 Enter 或输入 /todo confirm 可切换到 Yolo 模式开始执行；按 Esc 保持在规划态继续调整方案。"
}

/// A plan-mode reply gets the hint once: not when it already carries it.
pub fn with_execution_hint(content: &str) -> (r: String)
    ensures
        r@ == (if contains(content@, "[执行确认]"@) { content@ } else { content@ + execution_hint_text() }),
{
    let c = to_chars(content);
    let mut out = String::from_str(content);
    if !contains_str(c.as_slice(), "[执行确认]") {
        out.append(plan_mode_execution_hint());
    }
    out
}

/// The notice for a task that finished after it was cancelled.
pub fn canceled_task_notice(task_id: u64, prompt: &str) -> (r: String)
    ensures
        r@ == "已取消任务 #"@ + decimal(task_id as nat) + ": "@ + prompt@,
{
    let mut s = String::from_str("已取消任务 #");
    s.append(u64_to_string(task_id).as_str());
    s.append(": ");
    s.append(prompt);
    s
}

/// What the interface does with a finished chat task.
#[derive(Debug, Clone, Copy, PartialEq, Eq, Structural)]
pub enum CompletionPlan {
    /// The task had been canceled: its reply is not shown.  When it was the
    /// running task, that task is finished, the cancellation announced and
    /// the next waiting message started; otherwise nothing happens.
    Canceled { was_active: bool },
    /// The reply settles into the conversation under `role`; a plan-mode
    /// approval request is dropped (with its notice) when
    /// `approval_dropped`; the task's question is kept waiting for an answer
    /// when `keeps_question`, else cleared; then the running task finishes
    /// and the loop, if any, takes `step`.
    Settle { role: ReplyRole, approval_dropped: bool, keeps_question: bool, step: LoopStep },
}

/// The state a finished run is taken to have: its own, or failed when it
/// reported none.
pub open spec fn effective_state(state: Option<RunState>) -> RunState {
    match state {
        Some(s) => s,
        None => RunState::Failed,
    }
}

/// Whether a plan-mode approval request is dropped.
pub open spec fn drops_approval(plan_mode: bool, question_kind: Option<Seq<char>>) -> bool {
    plan_mode && match question_kind {
        Some(k) => k == "tool_approval"@,
        None => false,
    }
}

/// What a finished task leads to: nothing but the cancellation when it was
/// canceled; else the reply's role (system for a failed run), whether a
/// plan-mode approval is dropped, whether its question waits for an answer,
/// and the loop's next step, for which a dropped approval does not count as
/// waiting.
pub open spec fn completion_plan_of(
    canceled: bool,
    was_active: bool,
    state: Option<RunState>,
    plan_mode: bool,
    has_question: bool,
    question_kind: Option<Seq<char>>,
    hit_round_limit: bool,
    progress: Option<LoopProgress>,
) -> CompletionPlan {
    if canceled {
        CompletionPlan::Canceled { was_active }
    } else {
        let st = effective_state(state);
        let dropped = drops_approval(plan_mode, question_kind);
        CompletionPlan::Settle {
            role: if st == RunState::Failed { ReplyRole::System } else { ReplyRole::Assistant },
            approval_dropped: dropped,
            keeps_question: !dropped && has_question,
            step: loop_step(progress, st, waits_for_user(st, dropped), hit_round_limit),
        }
    }
}

/// Decides what a finished chat task leads to, from whether it was canceled
/// (and was the running task), the state its run reported, the execution
/// mode, the question it left (its presence and its `kind`), whether it hit
/// the per-round limit, and the counters of its loop.
pub fn completion_plan(
    canceled: bool,
    was_active: bool,
    state: Option<RunState>,
    plan_mode: bool,
    has_question: bool,
    question_kind: Option<&str>,
    hit_round_limit: bool,
    progress: Option<LoopProgress>,
) -> (r: CompletionPlan)
    ensures
        r == completion_plan_of(
            canceled,
            was_active,
            state,
            plan_mode,
            has_question,
            match question_kind {
                Some(k) => Some(k@),
                None => None,
            },
            hit_round_limit,
            progress,
        ),
{
    if canceled {
        return CompletionPlan::Canceled { was_active };
    }
    let st = match state {
        Some(s) => s,
        None => RunState::Failed,
    };
    let dropped = drops_plan_approval(plan_mode, question_kind);
    let waiting = waiting_for_user(st, dropped);
    CompletionPlan::Settle {
        role: response_role(st),
        approval_dropped: dropped,
        keeps_question: !dropped && has_question,
        step: next_loop_step(progress, st, waiting, hit_round_limit),
    }
}

} // verus!

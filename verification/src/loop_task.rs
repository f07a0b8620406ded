//! `/loop`: a task run round after round until it is done, fails three
//! times in a row, waits for the user, or reaches the round limit.  Here is
//! what each finished round decides and the texts that carry the task from
//! one round to the next.

use vstd::prelude::*;
use crate::text::{trim, trim_str, trim_chars, to_chars, starts_with, starts_with_chars, decimal, u64_to_string, slice_chars, from_chars};

verus! {

/// How a task run ended.
#[derive(Debug, Clone, Copy, PartialEq, Eq, Structural)]
pub enum RunState {
    Completed,
    Failed,
    WaitingForUser,
    WaitingForApproval,
    /// Any other state.
    Other,
}

/// The counters of a running loop.
#[derive(Debug, Clone, Copy, PartialEq, Eq, Structural)]
pub struct LoopProgress {
    /// The round that just ran, from 1.
    pub iteration: u32,
    pub max_iterations: u32,
    /// Failed rounds in a row.
    pub error_count: u32,
}

/// What happens after a round.
#[derive(Debug, Clone, Copy, PartialEq, Eq, Structural)]
pub enum LoopStep {
    /// No loop continues (no loop, or the round is waiting or unfinished).
    Done,
    /// The round limit is reached; the loop stops.
    ReachedLimit,
    /// The round completed; the next one starts with these counters.
    NextRound(LoopProgress),
    /// The third failure in a row; the loop stops.
    TooManyFailures(u32),
    /// The round failed; the next one starts with these counters and a
    /// hint to change course.
    Retry(LoopProgress),
}

/// `a + 1`, saturating at `u32::MAX`.
pub open spec fn succ(a: u32) -> u32 {
    if a < u32::MAX { (a + 1) as u32 } else { u32::MAX }
}

/// The task waits for the user unless a plan-mode approval request was
/// dropped.
pub open spec fn waits_for_user(state: RunState, approval_dropped: bool) -> bool {
    !approval_dropped && (state == RunState::WaitingForUser || state == RunState::WaitingForApproval)
}

/// After a round: a completed round (not waiting, not cut off by the round
/// limit) goes on to the next round unless that would pass the limit; a
/// failed round is retried with one more failure counted, unless that makes
/// three.
pub open spec fn loop_step(
    progress: Option<LoopProgress>,
    state: RunState,
    waiting_for_user: bool,
    hit_round_limit: bool,
) -> LoopStep {
    match progress {
        None => LoopStep::Done,
        Some(p) => if state == RunState::Completed && !waiting_for_user && !hit_round_limit {
            let next = succ(p.iteration);
            if next > p.max_iterations {
                LoopStep::ReachedLimit
            } else {
                LoopStep::NextRound(
                    LoopProgress { iteration: next, max_iterations: p.max_iterations, error_count: 0 },
                )
            }
        } else if state == RunState::Failed {
            let errors = succ(p.error_count);
            if errors >= 3 {
                LoopStep::TooManyFailures(errors)
            } else {
                LoopStep::Retry(
                    LoopProgress {
                        iteration: succ(p.iteration),
                        max_iterations: p.max_iterations,
                        error_count: errors,
                    },
                )
            }
        } else {
            LoopStep::Done
        },
    }
}

fn succ_exec(a: u32) -> (r: u32)
    ensures
        r == succ(a),
{
    if a < u32::MAX { a + 1 } else { u32::MAX }
}

/// Executable `waits_for_user`.
pub fn waiting_for_user(state: RunState, approval_dropped: bool) -> (r: bool)
    ensures
        r == waits_for_user(state, approval_dropped),
{
    !approval_dropped && (state == RunState::WaitingForUser || state == RunState::WaitingForApproval)
}

/// Executable `loop_step`.
pub fn next_loop_step(
    progress: Option<LoopProgress>,
    state: RunState,
    waiting_for_user: bool,
    hit_round_limit: bool,
) -> (r: LoopStep)
    ensures
        r == loop_step(progress, state, waiting_for_user, hit_round_limit),
{
    match progress {
        None => LoopStep::Done,
        Some(p) => if state == RunState::Completed && !waiting_for_user && !hit_round_limit {
            let next = succ_exec(p.iteration);
            if next > p.max_iterations {
                LoopStep::ReachedLimit
            } else {
                LoopStep::NextRound(
                    LoopProgress { iteration: next, max_iterations: p.max_iterations, error_count: 0 },
                )
            }
        } else if state == RunState::Failed {
            let errors = succ_exec(p.error_count);
            if errors >= 3 {
                LoopStep::TooManyFailures(errors)
            } else {
                LoopStep::Retry(
                    LoopProgress {
                        iteration: succ_exec(p.iteration),
                        max_iterations: p.max_iterations,
                        error_count: errors,
                    },
                )
            }
        } else {
            LoopStep::Done
        },
    }
}

/// The hint given to a retried round: after a round cut off by the
/// per-round limit, to narrow the scope; after a failure, to try another
/// way; more insistent each time.
pub open spec fn hint_text(hit_round_limit: bool, errors: u32) -> Seq<char> {
    if hit_round_limit {
        if errors == 1 {
            "上一轮在单轮最大迭代次数内未完成，请缩小处理范围，优先解决最关键的剩余问题。"@
        } else if errors == 2 {
            "已连续两轮在单轮最大迭代次数内未完成，请聚焦单一阻塞点，先验证局部修复是否生效。"@
        } else {
            "多轮都在单轮最大迭代次数内未完成，请进一步收缩目标，只处理一个最小可验证问题。"@
        }
    } else {
        if errors == 1 {
            "上一轮执行遇到问题，请重新审视任务需求，换一种方案尝试。"@
        } else if errors == 2 {
            "已连续两轮失败，请深入分析失败原因，检查是否有根本性问题。"@
        } else {
            "多次失败表明当前方案可能不可行，请彻底换一种思路。"@
        }
    }
}

/// Executable `hint_text`.
pub fn reflection_hint(hit_round_limit: bool, errors: u32) -> (r: &'static str)
    ensures
        r@ == hint_text(hit_round_limit, errors),
{
    if hit_round_limit {
        if errors == 1 {
            "上一轮在单轮最大迭代次数内未完成，请缩小处理范围，优先解决最关键的剩余问题。"
        } else if errors == 2 {
            "已连续两轮在单轮最大迭代次数内未完成，请聚焦单一阻塞点，先验证局部修复是否生效。"
        } else {
            "多轮都在单轮最大迭代次数内未完成，请进一步收缩目标，只处理一个最小可验证问题。"
        }
    } else {
        if errors == 1 {
            "上一轮执行遇到问题，请重新审视任务需求，换一种方案尝试。"
        } else if errors == 2 {
            "已连续两轮失败，请深入分析失败原因，检查是否有根本性问题。"
        } else {
            "多次失败表明当前方案可能不可行，请彻底换一种思路。"
        }
    }
}

/// The notice shown after a round that ran in a loop; `iteration` is the
/// round that just ran.
pub open spec fn step_text(step: LoopStep, iteration: u32, max_iterations: u32, hit_round_limit: bool) -> Option<Seq<char>> {
    match step {
        LoopStep::Done => None,
        LoopStep::ReachedLimit => Some(
            "循环任务已达到最大轮次上限 "@ + decimal(max_iterations as nat) + " 次，自动停止。"@,
        ),
        LoopStep::NextRound(_) => Some(
            "循环任务已完成第 "@ + decimal(iteration as nat) + " 轮，继续下一轮。"@,
        ),
        LoopStep::TooManyFailures(n) => Some(
            "循环任务已连续失败 "@ + decimal(n as nat) + " 次，自动停止。修复后可重新执行 /loop。"@,
        ),
        LoopStep::Retry(q) => if hit_round_limit {
            Some(
                "循环任务第 "@ + decimal(iteration as nat) + " 轮触达单轮最大迭代上限，已缩小范围并继续下一轮（累计 "@
                    + decimal(q.error_count as nat) + " 次）。"@,
            )
        } else {
            Some("循环任务本轮失败（累计 "@ + decimal(q.error_count as nat) + " 次），注入反思信号后继续下一轮。"@)
        },
    }
}

fn text3(a: &str, n: u32, b: &str) -> (r: String)
    ensures
        r@ == a@ + decimal(n as nat) + b@,
{
    let mut s = String::from_str(a);
    s.append(u64_to_string(n as u64).as_str());
    s.append(b);
    s
}

/// Executable `step_text`.
pub fn loop_step_notice(step: LoopStep, iteration: u32, max_iterations: u32, hit_round_limit: bool) -> (r: Option<String>)
    ensures
        crate::task_store::opt_view(r) == step_text(step, iteration, max_iterations, hit_round_limit),
{
    match step {
        LoopStep::Done => None,
        LoopStep::ReachedLimit => Some(text3("循环任务已达到最大轮次上限 ", max_iterations, " 次，自动停止。")),
        LoopStep::NextRound(_) => Some(text3("循环任务已完成第 ", iteration, " 轮，继续下一轮。")),
        LoopStep::TooManyFailures(n) => Some(
            text3("循环任务已连续失败 ", n, " 次，自动停止。修复后可重新执行 /loop。"),
        ),
        LoopStep::Retry(q) => if hit_round_limit {
            let mut s = text3("循环任务第 ", iteration, " 轮触达单轮最大迭代上限，已缩小范围并继续下一轮（累计 ");
            s.append(u64_to_string(q.error_count as u64).as_str());
            s.append(" 次）。");
            Some(s)
        } else {
            Some(text3("循环任务本轮失败（累计 ", q.error_count, " 次），注入反思信号后继续下一轮。"))
        },
    }
}

// ---------------------------------------------------------------------
// Texts carried between rounds
// ---------------------------------------------------------------------

/// The prompt of a round: the task, the summary of the last round (when
/// there is one) and a hint (when there is one).
pub open spec fn loop_prompt(task: Seq<char>, last_summary: Seq<char>, hint: Option<Seq<char>>) -> Seq<char> {
    let head = "循环执行下面的任务，持续检查结果并修复问题，直到任务达到可用完成态："@ + task;
    let with_summary = if trim(last_summary).len() > 0 {
        head + "\n\n上一轮摘要：\n"@ + trim(last_summary)
    } else {
        head
    };
    match hint {
        Some(h) => if trim(h).len() > 0 {
            with_summary + "\n\n反思提示：\n"@ + trim(h)
        } else {
            with_summary
        },
        None => with_summary,
    }
}

/// Executable `loop_prompt`.
pub fn build_loop_prompt(task: &str, last_summary: &str, reflection_hint: Option<&str>) -> (r: String)
    ensures
        r@ == loop_prompt(task@, last_summary@, crate::provider_runtime::opt_str_view(reflection_hint)),
{
    let mut prompt = String::from_str("循环执行下面的任务，持续检查结果并修复问题，直到任务达到可用完成态：");
    prompt.append(task);
    let s = trim_str(last_summary);
    if s.as_str().unicode_len() > 0 {
        prompt.append("\n\n上一轮摘要：\n");
        prompt.append(s.as_str());
    }
    if let Some(h) = reflection_hint {
        let t = trim_str(h);
        if t.as_str().unicode_len() > 0 {
            prompt.append("\n\n反思提示：\n");
            prompt.append(t.as_str());
        }
    }
    prompt
}

/// The summary of a round carried into the next: the trimmed response, cut
/// to its first 1200 characters with a mark when longer, and prefixed with
/// a note when the round hit the per-round limit; nothing for an empty
/// response.
pub open spec fn loop_summary(response: Seq<char>, hit_round_limit: bool) -> Seq<char> {
    let s = trim(response);
    if s.len() == 0 {
        Seq::empty()
    } else {
        let compact = if s.len() > 1200 {
            s.take(1200) + "\n...(已截断)"@
        } else {
            s
        };
        if hit_round_limit {
            "本轮在达到最大迭代上限后停止。\n"@ + compact
        } else {
            compact
        }
    }
}

/// Executable `loop_summary`.
pub fn build_loop_summary(response: &str, hit_round_limit: bool) -> (r: String)
    ensures
        r@ == loop_summary(response@, hit_round_limit),
{
    let t = trim_chars(to_chars(response).as_slice());
    if t.len() == 0 {
        return String::new();
    }
    let mut compact = if t.len() > 1200 {
        let head = slice_chars(t.as_slice(), 0, 1200);
        assert(head@ =~= t@.take(1200));
        let mut c = from_chars(head.as_slice());
        c.append("\n...(已截断)");
        c
    } else {
        from_chars(t.as_slice())
    };
    if hit_round_limit {
        let mut out = String::from_str("本轮在达到最大迭代上限后停止。\n");
        out.append(compact.as_str());
        out
    } else {
        compact
    }
}

/// The summary after a round: this round's, or the previous one (trimmed)
/// when this round left none.
pub open spec fn merged_summary(previous: Seq<char>, response: Seq<char>, hit_round_limit: bool) -> Seq<char> {
    let current = loop_summary(response, hit_round_limit);
    if current.len() == 0 {
        trim(previous)
    } else {
        current
    }
}

/// Executable `merged_summary`.
pub fn merge_loop_summary(previous_summary: &str, response: &str, hit_round_limit: bool) -> (r: String)
    ensures
        r@ == merged_summary(previous_summary@, response@, hit_round_limit),
{
    let current = build_loop_summary(response, hit_round_limit);
    if current.as_str().unicode_len() == 0 {
        trim_str(previous_summary)
    } else {
        current
    }
}

// ---------------------------------------------------------------------
// Starting a loop
// ---------------------------------------------------------------------

/// `s.trim_start_matches(p)`: every leading copy of `p` removed.
pub open spec fn strip_leading(s: Seq<char>, p: Seq<char>) -> Seq<char>
    decreases s.len(),
{
    if p.len() > 0 && starts_with(s, p) {
        strip_leading(s.skip(p.len() as int), p)
    } else {
        s
    }
}

/// The task of a `/loop` line: the line without its leading `/loop`
/// words, trimmed.
pub open spec fn loop_task_text(line: Seq<char>) -> Seq<char> {
    trim(strip_leading(line, "/loop"@))
}

/// The first round of a loop: its task, its prompt and its counters (round
/// 1 of at most the configured number, at least 1; 10 when none is
/// configured).
#[derive(Debug)]
pub struct LoopStart {
    pub task: String,
    pub prompt: String,
    pub progress: LoopProgress,
}

/// `/loop <task>`: the first round, or `None` (the usage is shown) when the
/// task is empty.
pub fn start_loop(line: &str, configured_max: Option<u32>) -> (r: Option<LoopStart>)
    ensures
        match r {
            Some(s) => {
                &&& loop_task_text(line@).len() > 0
                &&& s.task@ == loop_task_text(line@)
                &&& s.prompt@ == loop_prompt(loop_task_text(line@), Seq::empty(), None)
                &&& s.progress.iteration == 1
                &&& s.progress.error_count == 0
                &&& s.progress.max_iterations == (match configured_max {
                    Some(m) => if m >= 1 { m } else { 1 },
                    None => 10,
                })
            },
            None => loop_task_text(line@).len() == 0,
        },
{
    let c = to_chars(line);
    let p = to_chars("/loop");
    let mut i: usize = 0;
    proof {
        reveal_strlit("/loop");
    }
    assert(c@.skip(0) =~= c@);
    while at_word(&c, i, &p)
        invariant
            i <= c@.len(),
            p@ == "/loop"@,
            p@.len() == 5,
            strip_leading(line@, "/loop"@) == strip_leading(c@.skip(i as int), "/loop"@),
            c@ == line@,
        decreases c@.len() - i,
    {
        assert(i + 5 <= c@.len());
        assert(c.len() == c@.len());
        proof {
            assert(c@.skip(i as int).skip(5) =~= c@.skip(i + 5));
        }
        i = i + 5;
    }
    let rest = slice_chars(c.as_slice(), i, c.len());
    assert(rest@ =~= c@.skip(i as int));
    let task_chars = trim_chars(rest.as_slice());
    if task_chars.len() == 0 {
        return None;
    }
    let task = from_chars(task_chars.as_slice());
    let prompt = build_loop_prompt(task.as_str(), "", None);
    proof {
        reveal_strlit("");
        assert(trim(""@) =~= Seq::<char>::empty());
    }
    let max = match configured_max {
        Some(m) => if m >= 1 { m } else { 1 },
        None => 10,
    };
    Some(LoopStart { task, prompt, progress: LoopProgress { iteration: 1, max_iterations: max, error_count: 0 } })
}

/// `p` starts at index `i` of `c`.
fn at_word(c: &Vec<char>, i: usize, p: &Vec<char>) -> (r: bool)
    requires
        i <= c@.len(),
    ensures
        r == starts_with(c@.skip(i as int), p@),
        r ==> i + p@.len() <= c@.len(),
{
    let rest = slice_chars(c.as_slice(), i, c.len());
    assert(rest@ =~= c@.skip(i as int));
    starts_with_chars(rest.as_slice(), p.as_slice())
}

/// The notice shown when a loop starts.
pub fn loop_started_notice(task: &str) -> (r: String)
    ensures
        r@ == "已开始循环执行任务。每轮完成后会自动继续，直到你取消、任务失败，或任务进入等待用户状态："@ + task@,
{
    let mut s = String::from_str("已开始循环执行任务。每轮完成后会自动继续，直到你取消、任务失败，或任务进入等待用户状态：");
    s.append(task);
    s
}

// ---------------------------------------------------------------------
// Laws
// ---------------------------------------------------------------------

/// A loop only goes on to a round within its limit, with the limit kept and
/// the failure count cleared.
pub proof fn law_next_round_within_limit(p: LoopProgress, state: RunState, waiting: bool, hit: bool)
    ensures
        loop_step(Some(p), state, waiting, hit) matches LoopStep::NextRound(q) ==> {
            &&& q.iteration <= q.max_iterations
            &&& q.max_iterations == p.max_iterations
            &&& q.error_count == 0
            &&& (p.iteration < u32::MAX ==> q.iteration == p.iteration + 1)
        },
{
}

/// A retried round counts one more failure in a row, and never a third.
pub proof fn law_retry_counts_failures(p: LoopProgress, state: RunState, waiting: bool, hit: bool)
    ensures
        loop_step(Some(p), state, waiting, hit) matches LoopStep::Retry(q) ==> {
            &&& q.error_count == p.error_count + 1
            &&& q.error_count < 3
            &&& q.max_iterations == p.max_iterations
        },
{
}

/// Two failures in a row already counted, a third failed round ends the
/// loop.
pub proof fn law_third_failure_stops(p: LoopProgress, waiting: bool, hit: bool)
    requires
        p.error_count >= 2,
    ensures
        loop_step(Some(p), RunState::Failed, waiting, hit) == LoopStep::TooManyFailures(succ(p.error_count)),
{
}

} // verus!

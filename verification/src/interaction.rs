//! The pending-question dialog: when the model asks the user one or more
//! questions (or asks to approve a tool), the user picks options or types
//! answers question by question, confirms, and the answers go back to the
//! model.

use vstd::prelude::*;
use crate::text::{trim, trim_str};
use crate::order::{seq_compare, compare_str, sort_strs, sort_strings};
use crate::runner::{join, join_strings};
use crate::task_store::strings_view;

verus! {

#[derive(Debug, Clone, Copy, PartialEq, Eq, Structural)]
pub enum InteractionState {
    Idle,
    TodoConfirmation,
    WaitingForQuestion,
    WaitingForApproval,
}

#[derive(Debug)]
pub struct PendingQuestionItem {
    pub question: String,
    pub options: Vec<PendingQuestionOption>,
    pub allow_multiple: bool,
}

#[derive(Debug)]
pub struct PendingQuestionOption {
    pub label: String,
    pub description: String,
}

#[derive(Debug)]
pub struct PendingApprovalRequest {
    pub task_prompt: String,
    pub tool_name: String,
    /// The directory the tool wants access to.
    pub allowed_dir: Option<String>,
    /// What the tool is about to act on: a shell command or a file path.
    pub input_summary: Option<String>,
}

/// How a task run treats tool calls that need approval.
#[derive(Debug, Clone, Copy, PartialEq, Eq, Structural)]
pub enum ApprovalPolicy {
    Prompt,
    AutoApprove,
    AutoDeny,
}

/// How much a task run may do on its own.
#[derive(Debug, Clone, Copy, PartialEq, Eq, Structural)]
pub enum ExecutionMode {
    Plan,
    Build,
    Yolo,
}

/// The approval policy of a task started in this mode: plan mode relies on
/// its own read-only tool set and approves what it runs, build mode asks
/// unless the session approved edits, yolo approves everything.
pub fn current_task_approval_policy(mode: ExecutionMode, session_auto_approve_edits: bool) -> (r: ApprovalPolicy)
    ensures
        r == match mode {
            ExecutionMode::Plan => ApprovalPolicy::AutoApprove,
            ExecutionMode::Build => if session_auto_approve_edits {
                ApprovalPolicy::AutoApprove
            } else {
                ApprovalPolicy::Prompt
            },
            ExecutionMode::Yolo => ApprovalPolicy::AutoApprove,
        },
{
    match mode {
        ExecutionMode::Plan => ApprovalPolicy::AutoApprove,
        ExecutionMode::Build => if session_auto_approve_edits {
            ApprovalPolicy::AutoApprove
        } else {
            ApprovalPolicy::Prompt
        },
        ExecutionMode::Yolo => ApprovalPolicy::AutoApprove,
    }
}

/// Enter on an empty chat line resumes a waiting question or approval.
pub fn should_resume_pending_question_on_enter(
    state: InteractionState,
    input_mode: crate::input::InputMode,
    input: &str,
) -> (r: bool)
    ensures
        r == ((state == InteractionState::WaitingForQuestion || state
            == InteractionState::WaitingForApproval) && input_mode == crate::input::InputMode::Chat
            && trim(input@).len() == 0),
{
    (state == InteractionState::WaitingForQuestion || state == InteractionState::WaitingForApproval)
        && input_mode == crate::input::InputMode::Chat && trim_str(input).as_str().unicode_len() == 0
}

/// The message sent back to the model with the user's answer.
pub open spec fn decorated_answer(title: Seq<char>, answer: Seq<char>) -> Seq<char> {
    "你上一轮通过 interaction.ask 提出了这个问题：\n"@ + title + "\n\n用户给出的回答是：\n"@ + trim(answer)
        + "\n\n请基于这个回答继续完成原任务。"@
}

/// Wraps the user's answer to a question in the message that resumes the
/// task.
pub fn decorate_pending_answer(title: &str, answer: &str) -> (r: String)
    ensures
        r@ == decorated_answer(title@, answer@),
{
    let mut s = String::from_str("你上一轮通过 interaction.ask 提出了这个问题：\n");
    s.append(title);
    s.append("\n\n用户给出的回答是：\n");
    let a = trim_str(answer);
    s.append(a.as_str());
    s.append("\n\n请基于这个回答继续完成原任务。");
    s
}

// ---------------------------------------------------------------------
// Approval answers
// ---------------------------------------------------------------------

/// What choosing an approval option does.
#[derive(Debug, Clone, Copy, PartialEq, Eq, Structural)]
pub enum ApprovalOutcome {
    /// Nothing chosen yet.
    NoSelection,
    /// The tool is refused.
    Denied,
    /// The tool may run this once; the task resumes auto-approved.
    AllowedOnce,
    /// Tools may run for the rest of the session; the task resumes
    /// auto-approved.
    AllowedForSession,
    /// An option the dialog does not know.
    Unrecognized,
}

/// The outcome of the chosen approval option (0 deny, 1 allow once, 2 allow
/// for the session).
pub fn approval_outcome(selection: Option<usize>) -> (r: ApprovalOutcome)
    ensures
        r == match selection {
            None => ApprovalOutcome::NoSelection,
            Some(0) => ApprovalOutcome::Denied,
            Some(1) => ApprovalOutcome::AllowedOnce,
            Some(2) => ApprovalOutcome::AllowedForSession,
            Some(_) => ApprovalOutcome::Unrecognized,
        },
{
    match selection {
        None => ApprovalOutcome::NoSelection,
        Some(0) => ApprovalOutcome::Denied,
        Some(1) => ApprovalOutcome::AllowedOnce,
        Some(2) => ApprovalOutcome::AllowedForSession,
        Some(_) => ApprovalOutcome::Unrecognized,
    }
}

/// The notice shown for an approval outcome, naming the tool.
pub open spec fn approval_notice(outcome: ApprovalOutcome, tool: Seq<char>) -> Seq<char> {
    match outcome {
        ApprovalOutcome::NoSelection => "请选择审批结果后再继续。"@,
        ApprovalOutcome::Denied => "已拒绝工具 "@ + tool + " 的权限授权请求。"@,
        ApprovalOutcome::AllowedOnce => "已允许工具 "@ + tool + " 本次请求授权并继续执行，正在继续任务。"@,
        ApprovalOutcome::AllowedForSession => "已允许工具 "@ + tool + " 在本会话内继续请求并执行授权操作，正在继续任务。"@,
        ApprovalOutcome::Unrecognized => "未识别的审批结果。"@,
    }
}

/// The notice shown for an approval outcome.
pub fn approval_message(outcome: ApprovalOutcome, tool_name: &str) -> (r: String)
    ensures
        r@ == approval_notice(outcome, tool_name@),
{
    match outcome {
        ApprovalOutcome::NoSelection => String::from_str("请选择审批结果后再继续。"),
        ApprovalOutcome::Denied => {
            let mut s = String::from_str("已拒绝工具 ");
            s.append(tool_name);
            s.append(" 的权限授权请求。");
            s
        },
        ApprovalOutcome::AllowedOnce => {
            let mut s = String::from_str("已允许工具 ");
            s.append(tool_name);
            s.append(" 本次请求授权并继续执行，正在继续任务。");
            s
        },
        ApprovalOutcome::AllowedForSession => {
            let mut s = String::from_str("已允许工具 ");
            s.append(tool_name);
            s.append(" 在本会话内继续请求并执行授权操作，正在继续任务。");
            s
        },
        ApprovalOutcome::Unrecognized => String::from_str("未识别的审批结果。"),
    }
}

// ---------------------------------------------------------------------
// The question dialog
// ---------------------------------------------------------------------

pub ghost struct OptionView {
    pub label: Seq<char>,
    pub description: Seq<char>,
}

pub ghost struct ItemView {
    pub question: Seq<char>,
    pub options: Seq<OptionView>,
    pub allow_multiple: bool,
}

impl View for PendingQuestionOption {
    type V = OptionView;

    open spec fn view(&self) -> OptionView {
        OptionView { label: self.label@, description: self.description@ }
    }
}

/// The views of options.
pub open spec fn options_view(v: Seq<PendingQuestionOption>) -> Seq<OptionView> {
    v.map_values(|o: PendingQuestionOption| o@)
}

impl View for PendingQuestionItem {
    type V = ItemView;

    open spec fn view(&self) -> ItemView {
        ItemView {
            question: self.question@,
            options: options_view(self.options@),
            allow_multiple: self.allow_multiple,
        }
    }
}

/// The views of question items.
pub open spec fn items_view(v: Seq<PendingQuestionItem>) -> Seq<ItemView> {
    v.map_values(|i: PendingQuestionItem| i@)
}

/// The state of the dialog: the questions, which question and option are
/// highlighted, the options chosen and the text typed for each question,
/// whether the user is at the final confirmation, and the input line.
#[derive(Debug)]
pub struct QuestionDialog {
    pub items: Vec<PendingQuestionItem>,
    pub selected_question: usize,
    pub selected_option: usize,
    pub answers: Vec<Vec<usize>>,
    pub custom_answers: Vec<String>,
    pub confirm_submission: bool,
    pub input: String,
}

pub ghost struct DialogView {
    pub items: Seq<ItemView>,
    pub selected_question: int,
    pub selected_option: int,
    pub answers: Seq<Seq<usize>>,
    pub custom_answers: Seq<Seq<char>>,
    pub confirm_submission: bool,
    pub input: Seq<char>,
}

/// The views of the chosen option sets.
pub open spec fn answers_view(v: Seq<Vec<usize>>) -> Seq<Seq<usize>> {
    v.map_values(|a: Vec<usize>| a@)
}

impl View for QuestionDialog {
    type V = DialogView;

    open spec fn view(&self) -> DialogView {
        DialogView {
            items: items_view(self.items@),
            selected_question: self.selected_question as int,
            selected_option: self.selected_option as int,
            answers: answers_view(self.answers@),
            custom_answers: strings_view(self.custom_answers@),
            confirm_submission: self.confirm_submission,
            input: self.input@,
        }
    }
}

/// The dialog's lists line up, there is at least one question, the
/// highlighted question exists, and no option is chosen twice.
pub open spec fn dialog_wf(v: DialogView) -> bool {
    &&& v.items.len() >= 1
    &&& v.answers.len() == v.items.len()
    &&& v.custom_answers.len() == v.items.len()
    &&& 0 <= v.selected_question < v.items.len()
    &&& forall|i: int| 0 <= i < v.answers.len() ==> #[trigger] v.answers[i].no_duplicates()
}

impl QuestionDialog {
    pub open spec fn wf(&self) -> bool {
        dialog_wf(self@)
    }
}

/// `a.saturating_sub(1)`.
pub open spec fn last_index(n: int) -> int {
    if n == 0 { 0 } else { n - 1 }
}

/// Wraps `idx + delta` into `0..len` (`rem_euclid`).
pub fn wrap_index(idx: usize, delta: isize, len: usize) -> (r: usize)
    requires
        len > 0,
        idx < len,
    ensures
        r == (idx + delta) % (len as int),
        r < len,
{
    let a: i128 = idx as i128 + delta as i128;
    let l: i128 = len as i128;
    if a >= 0 {
        let r = (a as u128) % (l as u128);
        proof {
            vstd::arithmetic::div_mod::lemma_fundamental_div_mod(a as int, l as int);
            vstd::arithmetic::div_mod::lemma_mod_bound(a as int, l as int);
        }
        r as usize
    } else {
        let na = (-a) as u128;
        let b = na % (l as u128);
        proof {
            vstd::arithmetic::div_mod::lemma_fundamental_div_mod(na as int, l as int);
            vstd::arithmetic::div_mod::lemma_mod_bound(na as int, l as int);
        }
        let ghost q = (na as int) / (l as int);
        if b == 0 {
            proof {
                assert(a as int == (-q) * (l as int) + 0) by(nonlinear_arith)
                    requires na as int == q * (l as int) + 0, a as int == -(na as int);
                vstd::arithmetic::div_mod::lemma_fundamental_div_mod_converse(a as int, l as int, -q, 0);
            }
            0
        } else {
            proof {
                assert(a as int == (-q - 1) * (l as int) + ((l - b) as int)) by(nonlinear_arith)
                    requires na as int == q * (l as int) + b as int, a as int == -(na as int);
                vstd::arithmetic::div_mod::lemma_fundamental_div_mod_converse(a as int, l as int, -q - 1, (l - b) as int);
            }
            (l as u128 - b) as usize
        }
    }
}

/// Option `opt` is chosen for question `q`.
pub open spec fn chosen(v: DialogView, q: int, opt: usize) -> bool {
    v.answers[q].contains(opt)
}

/// The chosen options after toggling the highlighted one: a multiple-choice
/// question flips it, a single-choice question keeps only it.
pub open spec fn toggled(v: DialogView) -> DialogView {
    let q = v.selected_question;
    let item = v.items[q];
    if item.options.len() == 0 {
        v
    } else {
        let opt = v.selected_option as usize;
        let set = v.answers[q];
        let new_set = if item.allow_multiple {
            if set.contains(opt) { set.remove(set.index_of(opt)) } else { set.push(opt) }
        } else {
            seq![opt]
        };
        DialogView { answers: v.answers.update(q, new_set), confirm_submission: false, ..v }
    }
}

proof fn lemma_answers_update(v: Seq<Vec<usize>>, i: int, x: Vec<usize>)
    requires
        0 <= i < v.len(),
    ensures
        answers_view(v.update(i, x)) == answers_view(v).update(i, x@),
{
    assert(answers_view(v.update(i, x)) =~= answers_view(v).update(i, x@));
}

proof fn lemma_strings_update(v: Seq<String>, i: int, x: String)
    requires
        0 <= i < v.len(),
    ensures
        strings_view(v.update(i, x)) == strings_view(v).update(i, x@),
{
    assert(strings_view(v.update(i, x)) =~= strings_view(v).update(i, x@));
}

fn position_of(set: &Vec<usize>, x: usize) -> (r: Option<usize>)
    ensures
        match r {
            Some(k) => k < set@.len() && set@[k as int] == x && set@.contains(x) && (set@.no_duplicates() ==> set@.index_of(x) == k),
            None => !set@.contains(x),
        },
{
    let mut i: usize = 0;
    while i < set.len()
        invariant
            i <= set@.len(),
            forall|j: int| 0 <= j < i ==> set@[j] != x,
        decreases set@.len() - i,
    {
        if set[i] == x {
            proof {
                if set@.no_duplicates() {
                    let k = set@.index_of(x);
                    assert(set@[k] == x);
                }
            }
            return Some(i);
        }
        i = i + 1;
    }
    None
}

impl QuestionDialog {
    /// Toggles the highlighted option of the highlighted question.
    pub fn toggle_option(&mut self)
        requires
            old(self).wf(),
        ensures
            final(self).wf(),
            final(self)@ == toggled(old(self)@),
    {
        let q = self.selected_question;
        let n = self.items[q].options.len();
        if n == 0 {
            return;
        }
        let opt = self.selected_option;
        let multiple = self.items[q].allow_multiple;
        let ghost set = self@.answers[q as int];
        assert(self@.answers[q as int].no_duplicates());
        let mut new_set = slice_usize(&self.answers[q]);
        if multiple {
            match position_of(&new_set, opt) {
                Some(k) => {
                    new_set.remove(k);
                },
                None => {
                    new_set.push(opt);
                },
            }
        } else {
            new_set = Vec::new();
            new_set.push(opt);
            assert(new_set@ =~= seq![opt]);
        }
        proof {
            if multiple && !set.contains(opt) {
                assert(new_set@ == set.push(opt));
                assert forall|i: int, j: int| 0 <= i < j < new_set@.len() implies new_set@[i] != new_set@[j] by {
                    if j == new_set@.len() - 1 {
                        assert(set[i] == new_set@[i]);
                        assert(new_set@[j] == opt);
                        assert(set.contains(set[i]));
                    } else {
                        assert(set[i] == new_set@[i]);
                        assert(set[j] == new_set@[j]);
                    }
                }
            } else if multiple {
                let k = set.index_of(opt);
                assert(new_set@ == set.remove(k));
                assert forall|i: int, j: int| 0 <= i < j < new_set@.len() implies new_set@[i] != new_set@[j] by {
                    let ii = if i < k { i } else { i + 1 };
                    let jj = if j < k { j } else { j + 1 };
                    assert(new_set@[i] == set[ii]);
                    assert(new_set@[j] == set[jj]);
                }
            }
        }
        let ghost before = self.answers@;
        let ghost nv = new_set@;
        self.answers.set(q, new_set);
        proof {
            lemma_answers_update(before, q as int, self.answers@[q as int]);
            assert forall|i: int| 0 <= i < self@.answers.len() implies #[trigger] self@.answers[i].no_duplicates() by {
                if i != q {
                    assert(self@.answers[i] == old(self)@.answers[i]);
                }
            }
        }
        self.confirm_submission = false;
    }

    /// Moves the highlighted option by `delta`, wrapping around.
    pub fn move_option(&mut self, delta: isize)
        requires
            old(self).wf(),
        ensures
            final(self).wf(),
            ({
                let v = old(self)@;
                let n = v.items[v.selected_question].options.len();
                final(self)@ == if n == 0 {
                    v
                } else {
                    DialogView {
                        selected_option: if v.selected_option < n {
                            (v.selected_option + delta) % (n as int)
                        } else {
                            final(self)@.selected_option
                        },
                        ..v
                    }
                }
            }),
            old(self)@.selected_option < old(self)@.items[old(self)@.selected_question].options.len()
                ==> final(self)@.selected_option < old(self)@.items[old(self)@.selected_question].options.len(),
    {
        let q = self.selected_question;
        let n = self.items[q].options.len();
        if n == 0 {
            return;
        }
        if self.selected_option < n {
            self.selected_option = wrap_index(self.selected_option, delta, n);
        } else {
            self.selected_option = wrap_any(self.selected_option, delta, n);
        }
    }
}

/// `(idx + delta).rem_euclid(len)` for an index that may lie outside the
/// range; the arithmetic is done in 128 bits.
fn wrap_any(idx: usize, delta: isize, len: usize) -> (r: usize)
    requires
        len > 0,
    ensures
        r < len,
{
    let reduced = idx % len;
    wrap_index(reduced, delta, len)
}

/// A copy of a vector of indices.
fn slice_usize(v: &Vec<usize>) -> (r: Vec<usize>)
    ensures
        r@ == v@,
{
    let mut r: Vec<usize> = Vec::new();
    let mut i: usize = 0;
    while i < v.len()
        invariant
            i <= v@.len(),
            r@ == v@.take(i as int),
        decreases v@.len() - i,
    {
        r.push(v[i]);
        i = i + 1;
        assert(r@ =~= v@.take(i as int));
    }
    assert(v@.take(v@.len() as int) =~= v@);
    r
}


// ---------------------------------------------------------------------
// Answers, navigation and submission
// ---------------------------------------------------------------------

/// The labels of the chosen options, in the order they were chosen; an
/// index past the options names nothing.
pub open spec fn chosen_labels(options: Seq<OptionView>, ans: Seq<usize>) -> Seq<Seq<char>>
    decreases ans.len(),
{
    if ans.len() == 0 {
        Seq::empty()
    } else {
        let rest = chosen_labels(options, ans.drop_last());
        let k = ans.last();
        if k < options.len() {
            rest.push(options[k as int].label)
        } else {
            rest
        }
    }
}

/// The line that reports the answer to one question: the typed answer if
/// there is one, else the chosen labels in ascending order, else that it is
/// unanswered.
pub open spec fn answer_line(item: ItemView, ans: Seq<usize>, custom: Seq<char>) -> Seq<char> {
    let c = trim(custom);
    if c.len() > 0 {
        item.question + ": "@ + c
    } else {
        let labels = sort_strs(chosen_labels(item.options, ans));
        if labels.len() == 0 {
            item.question + ": 未回答"@
        } else {
            item.question + ": "@ + join(labels, ", "@)
        }
    }
}

/// One answer line per question.
pub open spec fn answer_lines(v: DialogView) -> Seq<Seq<char>> {
    Seq::new(v.items.len(), |i: int| answer_line(v.items[i], v.answers[i], v.custom_answers[i]))
}

/// Question `i` has a typed answer or a chosen option.
pub open spec fn is_answered(v: DialogView, i: int) -> bool {
    ||| (0 <= i < v.custom_answers.len() && trim(v.custom_answers[i]).len() > 0)
    ||| (0 <= i < v.answers.len() && v.answers[i].len() > 0)
}

/// Every question is answered.
pub open spec fn all_answered(v: DialogView) -> bool {
    forall|i: int| 0 <= i < v.items.len() ==> is_answered(v, i)
}

/// The input line stored as the typed answer of the highlighted question.
pub open spec fn persisted(v: DialogView) -> DialogView {
    DialogView { custom_answers: v.custom_answers.update(v.selected_question, v.input), ..v }
}

/// `sel.min(n.saturating_sub(1))`.
pub open spec fn clamped_option(sel: int, n: int) -> int {
    if sel <= last_index(n) { sel } else { last_index(n) }
}

/// Question `q` highlighted, its typed answer back on the input line.
pub open spec fn focus(v: DialogView, q: int) -> DialogView {
    DialogView {
        selected_question: q,
        selected_option: clamped_option(v.selected_option, v.items[q].options.len() as int),
        input: v.custom_answers[q],
        ..v
    }
}

/// The dialog after moving `delta` questions, wrapping around.
pub open spec fn tab_moved(v: DialogView, delta: int) -> DialogView {
    let p = persisted(v);
    let q = (p.selected_question + delta) % (p.items.len() as int);
    DialogView { confirm_submission: false, ..focus(p, q) }
}

/// The text sent back to the model: the answer lines, one per line.
pub open spec fn submission_text(v: DialogView) -> Seq<char> {
    join(answer_lines(v), "\n"@)
}

/// What pressing Enter in the dialog did.
pub enum DialogStep {
    /// The confirmed answers, to be sent back to the model.
    Submit(String),
    /// The user confirmed, but there is nothing to send.
    NothingToSubmit,
    /// The highlighted question has no answer yet.
    NeedCurrentAnswer,
    /// The next question is highlighted.
    Advanced,
    /// The last question is answered but an earlier one is not.
    Unanswered,
    /// All questions are answered; the next Enter submits.
    AwaitingConfirm,
}

pub ghost enum StepView {
    Submit(Seq<char>),
    NothingToSubmit,
    NeedCurrentAnswer,
    Advanced,
    Unanswered,
    AwaitingConfirm,
}

impl View for DialogStep {
    type V = StepView;

    open spec fn view(&self) -> StepView {
        match self {
            DialogStep::Submit(s) => StepView::Submit(s@),
            DialogStep::NothingToSubmit => StepView::NothingToSubmit,
            DialogStep::NeedCurrentAnswer => StepView::NeedCurrentAnswer,
            DialogStep::Advanced => StepView::Advanced,
            DialogStep::Unanswered => StepView::Unanswered,
            DialogStep::AwaitingConfirm => StepView::AwaitingConfirm,
        }
    }
}

/// What Enter does: at the confirmation it submits the answers; otherwise it
/// insists on an answer to the highlighted question, moves to the next
/// question, or, on the last one, asks for confirmation once every question
/// is answered.
pub open spec fn step_after(v: DialogView) -> StepView {
    let p = persisted(v);
    if p.confirm_submission {
        let t = submission_text(p);
        if trim(t).len() == 0 {
            StepView::NothingToSubmit
        } else {
            StepView::Submit(t)
        }
    } else if !is_answered(p, p.selected_question) {
        StepView::NeedCurrentAnswer
    } else if p.selected_question < last_index(p.items.len() as int) {
        StepView::Advanced
    } else if !all_answered(p) {
        StepView::Unanswered
    } else {
        StepView::AwaitingConfirm
    }
}

/// The dialog after Enter.
pub open spec fn dialog_after(v: DialogView) -> DialogView {
    let p = persisted(v);
    match step_after(v) {
        StepView::Submit(_) => DialogView { input: Seq::empty(), ..p },
        StepView::Advanced => focus(p, p.selected_question + 1),
        StepView::AwaitingConfirm => DialogView { confirm_submission: true, input: Seq::empty(), ..p },
        _ => p,
    }
}

/// The notice shown for a step, if any.
pub open spec fn step_notice(s: StepView) -> Option<Seq<char>> {
    match s {
        StepView::NothingToSubmit => Some("当前没有可提交的回答内容。"@),
        StepView::NeedCurrentAnswer => Some("请先为当前问题选择选项或输入自定义回答，然后再继续。"@),
        StepView::Unanswered => Some("仍有未回答的问题，请补全后再确认提交。"@),
        _ => None,
    }
}

impl DialogStep {
    /// The notice shown to the user for this step, if any.
    pub fn notice(&self) -> (r: Option<String>)
        ensures
            match r {
                Some(s) => step_notice(self@) == Some(s@),
                None => step_notice(self@) is None,
            },
    {
        match self {
            DialogStep::NothingToSubmit => Some(String::from_str("当前没有可提交的回答内容。")),
            DialogStep::NeedCurrentAnswer => Some(
                String::from_str("请先为当前问题选择选项或输入自定义回答，然后再继续。"),
            ),
            DialogStep::Unanswered => Some(String::from_str("仍有未回答的问题，请补全后再确认提交。")),
            _ => None,
        }
    }
}

/// The labels of the chosen options.
fn chosen_option_labels(item: &PendingQuestionItem, ans: &Vec<usize>) -> (r: Vec<String>)
    ensures
        strings_view(r@) == chosen_labels(item@.options, ans@),
{
    let mut out: Vec<String> = Vec::new();
    let mut i: usize = 0;
    assert(ans@.take(0) =~= Seq::<usize>::empty());
    while i < ans.len()
        invariant
            i <= ans@.len(),
            strings_view(out@) == chosen_labels(item@.options, ans@.take(i as int)),
        decreases ans@.len() - i,
    {
        assert(ans@.take(i + 1).drop_last() =~= ans@.take(i as int));
        let k = ans[i];
        if k < item.options.len() {
            let ghost prev = out@;
            let l = item.options[k].label.clone();
            out.push(l);
            proof {
                prev.lemma_push_map_commute(|s: String| s@, l);
            }
        }
        i = i + 1;
    }
    assert(ans@.take(ans@.len() as int) =~= ans@);
    out
}

/// The answer line of one question.
fn answer_line_of(item: &PendingQuestionItem, ans: &Vec<usize>, custom: &String) -> (r: String)
    ensures
        r@ == answer_line(item@, ans@, custom@),
{
    let c = trim_str(custom.as_str());
    if c.as_str().unicode_len() > 0 {
        let mut s = item.question.clone();
        s.append(": ");
        s.append(c.as_str());
        s
    } else {
        let labels = sort_strings(&chosen_option_labels(item, ans));
        let mut s = item.question.clone();
        if labels.len() == 0 {
            s.append(": 未回答");
        } else {
            s.append(": ");
            let joined = join_strings(&labels, ", ");
            s.append(joined.as_str());
        }
        s
    }
}

impl QuestionDialog {
    /// A dialog over the given questions; with none, a single open question
    /// with the given title.
    pub fn new(items: Vec<PendingQuestionItem>, title: &str) -> (r: Self)
        ensures
            r.wf(),
            r@.items == (if items@.len() == 0 {
                seq![ItemView { question: title@, options: Seq::empty(), allow_multiple: false }]
            } else {
                items_view(items@)
            }),
            r@.selected_question == 0,
            r@.selected_option == 0,
            r@.answers == Seq::new(r@.items.len(), |i: int| Seq::<usize>::empty()),
            r@.custom_answers == Seq::new(r@.items.len(), |i: int| Seq::<char>::empty()),
            !r@.confirm_submission,
            r@.input == Seq::<char>::empty(),
    {
        let mut items = items;
        if items.len() == 0 {
            items.push(
                PendingQuestionItem {
                    question: String::from_str(title),
                    options: Vec::new(),
                    allow_multiple: false,
                },
            );
            assert(items_view(items@) =~= seq![
                ItemView { question: title@, options: Seq::empty(), allow_multiple: false },
            ]) by {
                assert(options_view(items@[0].options@) =~= Seq::<OptionView>::empty());
            }
        }
        let n = items.len();
        let mut answers: Vec<Vec<usize>> = Vec::new();
        let mut custom: Vec<String> = Vec::new();
        let mut i: usize = 0;
        while i < n
            invariant
                i <= n,
                n == items@.len(),
                answers@.len() == i,
                custom@.len() == i,
                forall|j: int| 0 <= j < i ==> (#[trigger] answers@[j])@ == Seq::<usize>::empty(),
                forall|j: int| 0 <= j < i ==> (#[trigger] custom@[j])@ == Seq::<char>::empty(),
            decreases n - i,
        {
            answers.push(Vec::new());
            custom.push(String::new());
            i = i + 1;
        }
        let r = QuestionDialog {
            items,
            selected_question: 0,
            selected_option: 0,
            answers,
            custom_answers: custom,
            confirm_submission: false,
            input: String::new(),
        };
        assert(r@.answers =~= Seq::new(r@.items.len(), |i: int| Seq::<usize>::empty()));
        assert(r@.custom_answers =~= Seq::new(r@.items.len(), |i: int| Seq::<char>::empty()));
        r
    }

    /// Stores the input line as the typed answer of the highlighted
    /// question.
    fn persist_input(&mut self)
        requires
            old(self).wf(),
        ensures
            final(self).wf(),
            final(self)@ == persisted(old(self)@),
    {
        let q = self.selected_question;
        let ghost before = self.custom_answers@;
        let text = self.input.clone();
        self.custom_answers.set(q, text);
        proof {
            lemma_strings_update(before, q as int, text);
        }
    }

    /// Highlights question `q` and brings its typed answer back.
    fn focus_question(&mut self, q: usize)
        requires
            old(self).wf(),
            q < old(self).items@.len(),
        ensures
            final(self).wf(),
            final(self)@ == focus(old(self)@, q as int),
    {
        self.selected_question = q;
        let n = self.items[q].options.len();
        let last = if n == 0 { 0 } else { n - 1 };
        if self.selected_option > last {
            self.selected_option = last;
        }
        self.input = self.custom_answers[q].clone();
    }

    /// Moves `delta` questions forward (or back), wrapping around; the
    /// typed answer of the question left is kept.
    pub fn move_question_tab(&mut self, delta: isize)
        requires
            old(self).wf(),
        ensures
            final(self).wf(),
            final(self)@ == tab_moved(old(self)@, delta as int),
    {
        self.persist_input();
        let q = wrap_index(self.selected_question, delta, self.items.len());
        self.focus_question(q);
        self.confirm_submission = false;
    }

    /// Question `index` has a typed answer or a chosen option.
    pub fn answered(&self, index: usize) -> (r: bool)
        ensures
            r == is_answered(self@, index as int),
    {
        let custom = index < self.custom_answers.len() && trim_str(
            self.custom_answers[index].as_str(),
        ).as_str().unicode_len() > 0;
        let chosen = index < self.answers.len() && self.answers[index].len() > 0;
        custom || chosen
    }

    /// Every question is answered.
    pub fn all_answered(&self) -> (r: bool)
        ensures
            r == all_answered(self@),
    {
        let mut i: usize = 0;
        while i < self.items.len()
            invariant
                i <= self.items@.len(),
                forall|j: int| 0 <= j < i ==> is_answered(self@, j),
            decreases self.items@.len() - i,
        {
            if !self.answered(i) {
                return false;
            }
            i = i + 1;
        }
        true
    }

    /// One line per question reporting its answer.
    pub fn answer_lines(&self) -> (r: Vec<String>)
        requires
            self.wf(),
        ensures
            strings_view(r@) == answer_lines(self@),
    {
        let ghost all = answer_lines(self@);
        let mut out: Vec<String> = Vec::new();
        let mut i: usize = 0;
        assert(all.take(0) =~= Seq::<Seq<char>>::empty());
        while i < self.items.len()
            invariant
                self.wf(),
                i <= self.items@.len(),
                all == answer_lines(self@),
                strings_view(out@) == all.take(i as int),
            decreases self.items@.len() - i,
        {
            let ghost prev = out@;
            let line = answer_line_of(&self.items[i], &self.answers[i], &self.custom_answers[i]);
            out.push(line);
            proof {
                prev.lemma_push_map_commute(|s: String| s@, line);
                assert(all.take(i + 1) =~= all.take(i as int).push(all[i as int]));
            }
            i = i + 1;
        }
        assert(all.take(all.len() as int) =~= all);
        out
    }

    /// Enter in the dialog: see `step_after` and `dialog_after`.
    pub fn advance_or_confirm(&mut self) -> (r: DialogStep)
        requires
            old(self).wf(),
        ensures
            final(self).wf(),
            r@ == step_after(old(self)@),
            final(self)@ == dialog_after(old(self)@),
    {
        self.persist_input();
        if self.confirm_submission {
            let lines = self.answer_lines();
            let text = join_strings(&lines, "\n");
            if trim_str(text.as_str()).as_str().unicode_len() == 0 {
                return DialogStep::NothingToSubmit;
            }
            self.input = String::new();
            return DialogStep::Submit(text);
        }
        if !self.answered(self.selected_question) {
            return DialogStep::NeedCurrentAnswer;
        }
        let n = self.items.len();
        let last = n - 1;
        if self.selected_question < last {
            let q = self.selected_question + 1;
            self.focus_question(q);
            return DialogStep::Advanced;
        }
        if !self.all_answered() {
            return DialogStep::Unanswered;
        }
        self.confirm_submission = true;
        self.input = String::new();
        DialogStep::AwaitingConfirm
    }
}


/// Moving `delta` questions away and `delta` back returns to the same
/// question with the same text on the input line, every typed answer kept
/// and no chosen option touched.
pub proof fn law_tab_round_trip_keeps_input(v: DialogView, delta: int)
    requires
        dialog_wf(v),
    ensures
        tab_moved(tab_moved(v, delta), -delta).selected_question == v.selected_question,
        tab_moved(tab_moved(v, delta), -delta).input == v.input,
        tab_moved(tab_moved(v, delta), -delta).custom_answers == persisted(v).custom_answers,
        tab_moved(tab_moved(v, delta), -delta).answers == v.answers,
{
    let n = v.items.len() as int;
    let q = v.selected_question;
    let w = tab_moved(v, delta);
    let q1 = (q + delta) % n;
    vstd::arithmetic::div_mod::lemma_fundamental_div_mod(q + delta, n);
    vstd::arithmetic::div_mod::lemma_mod_bound(q + delta, n);
    let a = (q + delta) / n;
    assert(q1 - delta == n * (-a) + q) by (nonlinear_arith)
        requires
            q + delta == n * a + q1;
    vstd::arithmetic::div_mod::lemma_fundamental_div_mod_converse(q1 - delta, n, -a, q);
    assert(w.selected_question == q1);
    assert(w.input == persisted(v).custom_answers[q1]);
    assert(persisted(w).custom_answers =~= persisted(v).custom_answers);
}

/// On a multiple-choice question, toggling the highlighted option twice
/// leaves the set of chosen options as it was.
pub proof fn law_toggle_twice_restores_choice(v: DialogView)
    requires
        dialog_wf(v),
        v.items[v.selected_question].allow_multiple,
    ensures
        toggled(toggled(v)).answers[v.selected_question].to_set()
            == v.answers[v.selected_question].to_set(),
        forall|i: int| 0 <= i < v.answers.len() && i != v.selected_question
            ==> toggled(toggled(v)).answers[i] == v.answers[i],
{
    let q = v.selected_question;
    let set = v.answers[q];
    assert(set.no_duplicates());
    if v.items[q].options.len() > 0 {
        let opt = v.selected_option as usize;
        let w = toggled(v);
        if set.contains(opt) {
            let k = set.index_of(opt);
            let removed = set.remove(k);
            assert(w.answers[q] == removed);
            assert(!removed.contains(opt)) by {
                if removed.contains(opt) {
                    let j = choose|j: int| 0 <= j < removed.len() && removed[j] == opt;
                    let jj = if j < k { j } else { j + 1 };
                    assert(set[jj] == opt);
                }
            }
            assert(toggled(w).answers[q] == removed.push(opt));
            assert(removed.push(opt).to_set() =~= set.to_set()) by {
                assert forall|x: usize| set.contains(x) implies removed.push(opt).contains(x) by {
                    let j = choose|j: int| 0 <= j < set.len() && set[j] == x;
                    if j < k {
                        assert(removed.push(opt)[j] == x);
                    } else if j > k {
                        assert(removed.push(opt)[j - 1] == x);
                    } else {
                        assert(removed.push(opt)[removed.len() as int] == x);
                    }
                }
                assert forall|x: usize| removed.push(opt).contains(x) implies set.contains(x) by {
                    let j = choose|j: int| 0 <= j < removed.push(opt).len() && removed.push(opt)[j] == x;
                    if j == removed.len() {
                        assert(set[k] == x);
                    } else if j < k {
                        assert(set[j] == x);
                    } else {
                        assert(set[j + 1] == x);
                    }
                }
            }
        } else {
            let pushed = set.push(opt);
            assert(w.answers[q] == pushed);
            assert(pushed.contains(opt)) by {
                assert(pushed[set.len() as int] == opt);
            }
            let k = pushed.index_of(opt);
            assert(k == set.len()) by {
                if k < set.len() {
                    assert(set[k] == opt);
                }
            }
            assert(pushed.remove(k) =~= set);
        }
    }
}


/// The title used when the model's question has none.
pub fn default_question_title() -> (r: &'static str)
    ensures
        r@ == "需要用户回答后继续执行。"@,
{
    "需要用户回答后继续执行。"
}

/// The line shown in the conversation for a waiting question: its title,
/// and its option labels when it has any.
pub open spec fn question_summary(title: Seq<char>, labels: Seq<Seq<char>>) -> Seq<char> {
    if labels.len() == 0 {
        "[等待用户回答] "@ + title
    } else {
        "[等待用户回答] "@ + title + "\n可选项: "@ + join(labels, ", "@)
    }
}

/// Executable `question_summary`.
pub fn format_pending_question(title: &str, labels: &Vec<String>) -> (r: String)
    ensures
        r@ == question_summary(title@, strings_view(labels@)),
{
    let mut s = String::from_str("[等待用户回答] ");
    s.append(title);
    if labels.len() > 0 {
        s.append("\n可选项: ");
        s.append(join_strings(labels, ", ").as_str());
    }
    s
}

/// The notice shown when a task stops to wait for an answer.
pub fn waiting_question_notice(title: &str) -> (r: String)
    ensures
        r@ == "当前任务等待用户回答。可在等待问题面板中选择或输入自定义回答；Esc 返回聊天后普通输入会进入等待队列："@ + title@,
{
    let mut s = String::from_str("当前任务等待用户回答。可在等待问题面板中选择或输入自定义回答；Esc 返回聊天后普通输入会进入等待队列：");
    s.append(title);
    s
}

/// A typed answer wins: when a question's typed answer is not blank, its
/// answer line is the question, `": "` and the typed answer trimmed,
/// whatever options are chosen for it.
pub proof fn law_typed_answer_wins(v: DialogView, i: int)
    requires
        dialog_wf(v),
        0 <= i < v.items.len(),
        trim(v.custom_answers[i]).len() > 0,
    ensures
        answer_lines(v)[i] == v.items[i].question + ": "@ + trim(v.custom_answers[i]),
{
}

/// Enter keeps what was typed: after Enter on a question with a non-blank
/// line, that question's answer line is the question, `": "` and the line
/// trimmed, whatever options are chosen for it, and its question and
/// chosen options are unchanged.
pub proof fn law_enter_keeps_typed_answer(v: DialogView)
    requires
        dialog_wf(v),
        trim(v.input).len() > 0,
    ensures
        dialog_after(v).items == v.items,
        dialog_after(v).answers == v.answers,
        answer_lines(dialog_after(v))[v.selected_question] == v.items[v.selected_question].question + ": "@
            + trim(v.input),
{
    let p = persisted(v);
    let q = v.selected_question;
    assert(p.custom_answers[q] == v.input);
    let a = dialog_after(v);
    assert(a.items == p.items && a.answers == p.answers && a.custom_answers == p.custom_answers);
    assert(dialog_wf(p));
    law_typed_answer_wins(p, q);
    assert(answer_lines(a) == answer_lines(p));
}

} // verus!

//! Background work other than tasks (initialising the project, updating,
//! compressing the context, loading providers and models, rewriting the
//! input): the busy indicator while it runs, and what a failure undoes.

use vstd::prelude::*;
use crate::queue::TaskQueue;
use crate::task_store::strings_view;
use crate::words::{words, split_whitespace};
use crate::runner::{join, join_strings};

verus! {

/// The kind of background work.
#[derive(Debug, Clone, Copy, PartialEq, Eq, Structural)]
pub enum AsyncContext {
    OptimizeInput,
    CompressContext,
    Login,
    LoadProviders,
    SaveProvider,
    LoadModels,
    SaveModel,
    Init,
    Update,
}

/// The busy indicator.
#[derive(Debug)]
pub struct Busy {
    /// When the running work started is known.
    pub started: bool,
    /// The frame of the spinner.
    pub spinner_index: usize,
    /// The line shown while the work runs (empty when none).
    pub message: String,
}

/// What happens after a failure besides the queue and the indicator.
#[derive(Debug, Clone, Copy, PartialEq, Eq, Structural)]
pub struct FailureOutcome {
    /// The interface goes back to the chat input.
    pub back_to_chat: bool,
    /// The next waiting message may start.
    pub start_next: bool,
}

/// The kinds of work that return to the chat input when they fail: input
/// rewriting, compression, and loading or saving providers and models.
pub open spec fn returns_to_chat(c: AsyncContext) -> bool {
    c == AsyncContext::OptimizeInput || c == AsyncContext::CompressContext || c == AsyncContext::LoadProviders
        || c == AsyncContext::SaveProvider || c == AsyncContext::LoadModels || c == AsyncContext::SaveModel
}

/// Starts background work: the queue is busy with no task, and the
/// indicator shows `message` from its first frame.
pub fn start_background(queue: &mut TaskQueue, busy: &mut Busy, message: String)
    requires
        old(queue).wf(),
    ensures
        final(queue).wf(),
        final(queue)@ == (crate::queue::QueueView { processing: true, active: None, ..old(queue)@ }),
        final(busy).started,
        final(busy).spinner_index == 0,
        final(busy).message@ == message@,
{
    queue.processing = true;
    queue.active_task_id = None;
    busy.started = true;
    busy.spinner_index = 0;
    busy.message = message;
}

/// Work finished: nothing runs and the indicator is cleared (the start
/// time is kept).  Background work runs only while no task does, so no
/// task is marked running afterwards either.
pub fn clear_busy(queue: &mut TaskQueue, busy: &mut Busy)
    requires
        old(queue).wf(),
    ensures
        final(queue).wf(),
        final(queue)@ == (crate::queue::QueueView { processing: false, active: None, ..old(queue)@ }),
        final(busy).started == old(busy).started,
        final(busy).spinner_index == 0,
        final(busy).message@.len() == 0,
{
    queue.processing = false;
    queue.active_task_id = None;
    busy.spinner_index = 0;
    busy.message = String::new();
}

/// A background job failed: rewriting the input only clears the indicator;
/// any other failure stops everything that was running.  Some kinds return
/// to the chat input, and the next waiting message may start when no
/// question is waiting.
pub fn handle_async_failure(queue: &mut TaskQueue, busy: &mut Busy, context: AsyncContext, interaction_idle: bool) -> (r: FailureOutcome)
    requires
        old(queue).wf(),
    ensures
        final(queue).wf(),
        context == AsyncContext::OptimizeInput ==> final(queue)@ == old(queue)@ && final(busy).started == old(busy).started
            && final(busy).spinner_index == old(busy).spinner_index,
        context != AsyncContext::OptimizeInput ==> final(queue)@ == (crate::queue::QueueView { processing: false, active: None, ..old(queue)@ })
            && !final(busy).started && final(busy).spinner_index == 0,
        final(busy).message@.len() == 0,
        r == (FailureOutcome { back_to_chat: returns_to_chat(context), start_next: interaction_idle }),
{
    if context != AsyncContext::OptimizeInput {
        queue.processing = false;
        queue.active_task_id = None;
        busy.started = false;
        busy.spinner_index = 0;
    }
    busy.message = String::new();
    let back = context == AsyncContext::OptimizeInput || context == AsyncContext::CompressContext
        || context == AsyncContext::LoadProviders || context == AsyncContext::SaveProvider
        || context == AsyncContext::LoadModels || context == AsyncContext::SaveModel;
    FailureOutcome { back_to_chat: back, start_next: interaction_idle }
}

/// The busy line while the project is being initialised.
pub fn init_busy_message(deep: bool) -> (r: &'static str)
    ensures
        r@ == (if deep { "正在生成深度初始化文件..."@ } else { "正在生成项目初始化文件..."@ }),
{
    if deep { "正在生成深度初始化文件..." } else { "正在生成项目初始化文件..." }
}

/// `/update` refuses to start while something runs.
pub fn update_refusal(processing: bool) -> (r: Option<&'static str>)
    ensures
        processing ==> r is Some && r->0@ == "当前有任务正在执行，请等待完成后再更新 sacode。"@,
        !processing ==> r is None,
{
    if processing { Some("当前有任务正在执行，请等待完成后再更新 sacode。") } else { None }
}


// ---------------------------------------------------------------------
// The spinner and the event log
// ---------------------------------------------------------------------

/// The frames of the busy spinner, in order.
pub open spec fn spinner_frames() -> Seq<Seq<char>> {
    seq!["⠋"@, "⠙"@, "⠹"@, "⠸"@, "⠼"@, "⠴"@, "⠦"@, "⠧"@, "⠇"@, "⠏"@]
}

/// The spinner frame for a counter value.
pub fn spinner_frame(index: usize) -> (r: &'static str)
    ensures
        r@ == spinner_frames()[(index % 10) as int],
{
    let i = index % 10;
    if i == 0 { "⠋" } else if i == 1 { "⠙" } else if i == 2 { "⠹" } else if i == 3 { "⠸" } else if i == 4 {
        "⠼"
    } else if i == 5 { "⠴" } else if i == 6 { "⠦" } else if i == 7 { "⠧" } else if i == 8 { "⠇" } else { "⠏" }
}

/// A clock tick: while something runs the spinner moves on a frame (and the
/// screen is redrawn); otherwise nothing changes.
pub fn tick(processing: bool, spinner_index: usize) -> (r: (bool, usize))
    ensures
        r == (if processing { (true, ((spinner_index + 1) % 10) as usize) } else { (false, spinner_index) }),
{
    if processing {
        (true, if spinner_index < 9 { spinner_index + 1 } else { (spinner_index - 9) % 10 })
    } else {
        (false, spinner_index)
    }
}

/// How long the event loop waits for input before redrawing: a tenth of a
/// second while something runs, else three tenths.
pub fn redraw_poll_millis(processing: bool) -> (r: u64)
    ensures
        r == (if processing { 100u64 } else { 300u64 }),
{
    if processing { 100 } else { 300 }
}

/// A line of the event log: the time, the kind in brackets, and the
/// content with its whitespace runs squeezed to single blanks.
pub open spec fn event_log_line(time: Seq<char>, kind: Seq<char>, content: Seq<char>) -> Seq<char> {
    time + " ["@ + kind + "] "@ + join(words(content), " "@) + "\n"@
}

/// Executable `event_log_line`.
pub fn log_line(time: &str, kind: &str, content: &str) -> (r: String)
    ensures
        r@ == event_log_line(time@, kind@, content@),
{
    let w = split_whitespace(content);
    let mut s = String::from_str(time);
    s.append(" [");
    s.append(kind);
    s.append("] ");
    s.append(join_strings(&w, " ").as_str());
    s.append("\n");
    s
}

/// An entry of the raw log: the time and the kind in brackets on one line,
/// the trimmed content, and a `---` separator.
pub fn raw_log_entry(time: &str, kind: &str, content: &str) -> (r: String)
    ensures
        r@ == time@ + " ["@ + kind@ + "]\n"@ + crate::text::trim(content@) + "\n---\n"@,
{
    let mut s = String::from_str(time);
    s.append(" [");
    s.append(kind);
    s.append("]\n");
    s.append(crate::text::trim_str(content).as_str());
    s.append("\n---\n");
    s
}

} // verus!

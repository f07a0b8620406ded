//! The text reports of a finished task run: the full report printed by the
//! command line, the reply shown in chat mode, and the tail shown after a
//! streamed run.  The run itself is described here by plain values.

use vstd::prelude::*;
use crate::interaction::ExecutionMode;
use crate::learning::{LearnedFact, LearnedKind, FactView, facts_view};
use crate::runner::{ToolResult, join, join_strings, preview, preview_text};
use crate::task_store::strings_view;
use crate::text::{decimal, u64_to_string};

verus! {

/// One step of the plan of a run.
#[derive(Debug)]
pub struct PlanStep {
    pub id: usize,
    pub description: String,
    /// The step's status as the runtime names it.
    pub status: String,
}

/// What happened during a run, as far as the reports show it.
#[derive(Debug)]
pub enum RunEvent {
    Message(String),
    Thinking(String),
    ToolStarted(String),
    /// A finished tool call: its name, whether it succeeded, and a summary
    /// of its output (empty when it had none).
    ToolFinished(String, bool, String),
    Done(String),
    Error(String),
    /// Anything the reports leave out.
    Other,
}

/// A finished run.
#[derive(Debug)]
pub struct RunReport {
    pub prompt: String,
    pub mode: ExecutionMode,
    pub max_iterations: usize,
    pub tool_names: Vec<String>,
    pub workspace: String,
    pub steps: Vec<PlanStep>,
    pub events: Vec<RunEvent>,
    pub tool_results: Vec<ToolResult>,
    /// The model's reply, or why there is none.
    pub provider_response: Result<String, String>,
    pub learned_facts: Vec<LearnedFact>,
    /// A summary of the question the run is waiting on, if any.
    pub pending_question: Option<String>,
    /// The run's final state as the runtime names it, when the run
    /// recorded one.
    pub state: Option<String>,
}

pub ghost enum EventView {
    Message(Seq<char>),
    Thinking(Seq<char>),
    ToolStarted(Seq<char>),
    ToolFinished(Seq<char>, bool, Seq<char>),
    Done(Seq<char>),
    Error(Seq<char>),
    Other,
}

impl View for RunEvent {
    type V = EventView;

    open spec fn view(&self) -> EventView {
        match self {
            RunEvent::Message(s) => EventView::Message(s@),
            RunEvent::Thinking(s) => EventView::Thinking(s@),
            RunEvent::ToolStarted(s) => EventView::ToolStarted(s@),
            RunEvent::ToolFinished(n, ok, s) => EventView::ToolFinished(n@, *ok, s@),
            RunEvent::Done(s) => EventView::Done(s@),
            RunEvent::Error(s) => EventView::Error(s@),
            RunEvent::Other => EventView::Other,
        }
    }
}

pub open spec fn events_view(v: Seq<RunEvent>) -> Seq<EventView> {
    v.map_values(|e: RunEvent| e@)
}

/// The name `Debug` gives a mode.
pub open spec fn mode_name(m: ExecutionMode) -> Seq<char> {
    match m {
        ExecutionMode::Plan => "Plan"@,
        ExecutionMode::Build => "Build"@,
        ExecutionMode::Yolo => "Yolo"@,
    }
}

/// The name `Debug` gives a kind of fact.
pub open spec fn kind_name(k: LearnedKind) -> Seq<char> {
    match k {
        LearnedKind::Preference => "Preference"@,
        LearnedKind::Workflow => "Workflow"@,
        LearnedKind::Decision => "Decision"@,
    }
}

pub open spec fn fact_line(f: FactView) -> Seq<char> {
    "  - "@ + kind_name(f.kind) + ": "@ + f.content
}

pub open spec fn fact_lines(s: Seq<FactView>) -> Seq<Seq<char>>
    decreases s.len(),
{
    if s.len() == 0 { Seq::empty() } else { fact_lines(s.drop_last()).push(fact_line(s.last())) }
}

pub open spec fn step_line(id: usize, description: Seq<char>, status: Seq<char>) -> Seq<char> {
    "  "@ + decimal(id as nat) + ". "@ + description + " ["@ + status + "]"@
}

pub open spec fn step_lines(s: Seq<PlanStep>) -> Seq<Seq<char>>
    decreases s.len(),
{
    if s.len() == 0 {
        Seq::empty()
    } else {
        step_lines(s.drop_last()).push(step_line(s.last().id, s.last().description@, s.last().status@))
    }
}

pub open spec fn result_line(r: ToolResult) -> Seq<char> {
    "  Step "@ + decimal(r.step_id as nat) + " - "@ + r.name@ + ": "@ + (if r.success { "OK"@ } else { "FAIL"@ })
        + " - "@ + r.summary@
}

pub open spec fn result_lines(s: Seq<ToolResult>) -> Seq<Seq<char>>
    decreases s.len(),
{
    if s.len() == 0 { Seq::empty() } else { result_lines(s.drop_last()).push(result_line(s.last())) }
}

/// The line of an event in the full report; messages and thinking are
/// shown, other events not named here are left out.
pub open spec fn event_line(e: EventView) -> Option<Seq<char>> {
    match e {
        EventView::Message(c) => Some("  MSG: "@ + c),
        EventView::Thinking(c) => Some("  THINK: "@ + c),
        EventView::ToolStarted(n) => Some("  TOOL_START: "@ + n),
        EventView::ToolFinished(n, ok, s) => Some(
            "  TOOL_END: "@ + n + " ("@ + (if ok { "ok"@ } else { "fail"@ }) + ") "@ + s,
        ),
        EventView::Done(s) => Some("  DONE: "@ + s),
        EventView::Error(m) => Some("  ERROR: "@ + m),
        EventView::Other => None,
    }
}

/// The line of an event in the tail after a streamed run, where messages
/// and thinking were already shown.
pub open spec fn tail_event_line(e: EventView) -> Option<Seq<char>> {
    match e {
        EventView::Message(_) | EventView::Thinking(_) => None,
        _ => event_line(e),
    }
}

/// The line of an event in the chat reply.
pub open spec fn chat_event_line(e: EventView) -> Option<Seq<char>> {
    match e {
        EventView::Message(c) => Some(c),
        EventView::Thinking(c) => Some("[思考] "@ + c),
        EventView::ToolFinished(n, ok, s) => {
            let status = if ok { "完成"@ } else { "失败"@ };
            if s.len() == 0 {
                Some("[工具] "@ + n + " "@ + status)
            } else {
                Some("[工具] "@ + n + " "@ + status + ": "@ + s)
            }
        },
        EventView::Done(s) => Some(s),
        EventView::Error(m) => Some("[错误] "@ + m),
        _ => None,
    }
}

/// The lines the given line function keeps, in order.
pub open spec fn kept_lines(s: Seq<EventView>, f: spec_fn(EventView) -> Option<Seq<char>>) -> Seq<Seq<char>>
    decreases s.len(),
{
    if s.len() == 0 {
        Seq::empty()
    } else {
        let rest = kept_lines(s.drop_last(), f);
        match f(s.last()) {
            Some(l) => rest.push(l),
            None => rest,
        }
    }
}

pub open spec fn question_lines(q: Option<Seq<char>>) -> Seq<Seq<char>> {
    match q {
        Some(q) => seq!["Pending Question:"@, q],
        None => Seq::empty(),
    }
}

pub open spec fn results_section(s: Seq<ToolResult>) -> Seq<Seq<char>> {
    if s.len() == 0 { Seq::empty() } else { seq!["Tool Results:"@] + result_lines(s) }
}

/// The lines of the full report.
pub open spec fn report_lines(r: RunReport) -> Seq<Seq<char>> {
    let header = seq![
        "SaCode"@,
        "Mode: "@ + mode_name(r.mode),
        "Max Iterations: "@ + decimal(r.max_iterations as nat),
        "Task: "@ + r.prompt@,
        "Workspace: "@ + r.workspace@,
        "Tools: "@ + join(strings_view(r.tool_names@), ", "@),
    ];
    let response = match r.provider_response {
        Ok(text) => seq!["Provider Response:"@, text@],
        Err(e) => seq!["Provider: "@ + e@],
    };
    let facts = facts_view(r.learned_facts@);
    let facts_section = if facts.len() == 0 { Seq::empty() } else { seq!["Learned Facts:"@] + fact_lines(facts) };
    header + response + seq!["State: "@ + state_name(r.state)] + question_lines(crate::task_store::opt_view(r.pending_question))
        + facts_section + seq!["Plan:"@] + step_lines(r.steps@) + results_section(r.tool_results@)
        + seq!["Events:"@] + kept_lines(events_view(r.events@), |e: EventView| event_line(e))
}

/// The lines of the tail after a streamed run.
pub open spec fn tail_lines(r: RunReport) -> Seq<Seq<char>> {
    let events = if r.events@.len() == 0 {
        Seq::empty()
    } else {
        seq!["Events:"@] + kept_lines(events_view(r.events@), |e: EventView| tail_event_line(e))
    };
    seq!["State: "@ + state_name(r.state)] + question_lines(crate::task_store::opt_view(r.pending_question))
        + results_section(r.tool_results@) + events
}

/// The chat reply: the model's reply, or else what the events say, or a
/// plain completion notice.
pub open spec fn chat_text(r: RunReport) -> Seq<char> {
    match r.provider_response {
        Ok(text) => text@,
        Err(_) => {
            let lines = kept_lines(events_view(r.events@), |e: EventView| chat_event_line(e));
            if lines.len() == 0 { "任务已完成。"@ } else { join(lines, "\n"@) }
        },
    }
}

// ---------------------------------------------------------------------
// Building the texts
// ---------------------------------------------------------------------

fn push_line(out: &mut Vec<String>, s: String)
    ensures
        strings_view(final(out)@) == strings_view(old(out)@).push(s@),
{
    let ghost prev = out@;
    out.push(s);
    proof {
        prev.lemma_push_map_commute(|x: String| x@, s);
    }
}

fn text2(a: &str, b: &str) -> (r: String)
    ensures
        r@ == a@ + b@,
{
    let mut s = String::from_str(a);
    s.append(b);
    s
}

fn mode_text(m: ExecutionMode) -> (r: &'static str)
    ensures
        r@ == mode_name(m),
{
    match m {
        ExecutionMode::Plan => "Plan",
        ExecutionMode::Build => "Build",
        ExecutionMode::Yolo => "Yolo",
    }
}

fn kind_text(k: LearnedKind) -> (r: &'static str)
    ensures
        r@ == kind_name(k),
{
    match k {
        LearnedKind::Preference => "Preference",
        LearnedKind::Workflow => "Workflow",
        LearnedKind::Decision => "Decision",
    }
}

fn result_text(r: &ToolResult) -> (s: String)
    ensures
        s@ == result_line(*r),
{
    let mut s = String::from_str("  Step ");
    s.append(u64_to_string(r.step_id as u64).as_str());
    s.append(" - ");
    s.append(r.name.as_str());
    s.append(": ");
    s.append(if r.success { "OK" } else { "FAIL" });
    s.append(" - ");
    s.append(r.summary.as_str());
    s
}

fn push_results(out: &mut Vec<String>, results: &Vec<ToolResult>)
    ensures
        strings_view(final(out)@) == strings_view(old(out)@) + results_section(results@),
{
    if results.len() == 0 {
        assert(strings_view(out@) + Seq::<Seq<char>>::empty() =~= strings_view(out@));
        return;
    }
    let ghost base = strings_view(out@);
    push_line(out, String::from_str("Tool Results:"));
    let mut i: usize = 0;
    assert(results@.take(0) =~= Seq::<ToolResult>::empty());
    while i < results.len()
        invariant
            i <= results@.len(),
            strings_view(out@) == base + seq!["Tool Results:"@] + result_lines(results@.take(i as int)),
        decreases results@.len() - i,
    {
        assert(results@.take(i + 1).drop_last() =~= results@.take(i as int));
        push_line(out, result_text(&results[i]));
        i = i + 1;
    }
    assert(results@.take(results@.len() as int) =~= results@);
    assert(base + seq!["Tool Results:"@] + result_lines(results@) =~= base + results_section(results@));
}

fn push_question(out: &mut Vec<String>, q: &Option<String>)
    ensures
        strings_view(final(out)@) == strings_view(old(out)@) + question_lines(crate::task_store::opt_view(*q)),
{
    let ghost base = strings_view(out@);
    match q {
        Some(text) => {
            push_line(out, String::from_str("Pending Question:"));
            push_line(out, text.clone());
            assert(strings_view(out@) =~= base + question_lines(crate::task_store::opt_view(*q)));
        },
        None => {
            assert(strings_view(out@) =~= base + question_lines(crate::task_store::opt_view(*q)));
        },
    }
}

fn full_event_text(e: &RunEvent) -> (r: Option<String>)
    ensures
        crate::task_store::opt_view(r) == event_line(e@),
{
    match e {
        RunEvent::Message(c) => Some(text2("  MSG: ", c.as_str())),
        RunEvent::Thinking(c) => Some(text2("  THINK: ", c.as_str())),
        RunEvent::ToolStarted(n) => Some(text2("  TOOL_START: ", n.as_str())),
        RunEvent::ToolFinished(n, ok, s) => {
            let mut t = text2("  TOOL_END: ", n.as_str());
            t.append(" (");
            t.append(if *ok { "ok" } else { "fail" });
            t.append(") ");
            t.append(s.as_str());
            Some(t)
        },
        RunEvent::Done(s) => Some(text2("  DONE: ", s.as_str())),
        RunEvent::Error(m) => Some(text2("  ERROR: ", m.as_str())),
        RunEvent::Other => None,
    }
}

fn tail_event_text(e: &RunEvent) -> (r: Option<String>)
    ensures
        crate::task_store::opt_view(r) == tail_event_line(e@),
{
    match e {
        RunEvent::Message(_) | RunEvent::Thinking(_) => None,
        _ => full_event_text(e),
    }
}

fn chat_event_text(e: &RunEvent) -> (r: Option<String>)
    ensures
        crate::task_store::opt_view(r) == chat_event_line(e@),
{
    match e {
        RunEvent::Message(c) => Some(c.clone()),
        RunEvent::Thinking(c) => Some(text2("[思考] ", c.as_str())),
        RunEvent::ToolFinished(n, ok, s) => {
            let mut t = text2("[工具] ", n.as_str());
            t.append(" ");
            t.append(if *ok { "完成" } else { "失败" });
            if s.as_str().unicode_len() > 0 {
                t.append(": ");
                t.append(s.as_str());
            }
            Some(t)
        },
        RunEvent::Done(s) => Some(s.clone()),
        RunEvent::Error(m) => Some(text2("[错误] ", m.as_str())),
        _ => None,
    }
}

/// Which event lines a report uses.
#[derive(Debug, Clone, Copy, PartialEq, Eq, Structural)]
enum EventStyle {
    Full,
    Tail,
    Chat,
}

spec fn style_fn(style: EventStyle) -> spec_fn(EventView) -> Option<Seq<char>> {
    match style {
        EventStyle::Full => |e: EventView| event_line(e),
        EventStyle::Tail => |e: EventView| tail_event_line(e),
        EventStyle::Chat => |e: EventView| chat_event_line(e),
    }
}

fn push_events(out: &mut Vec<String>, events: &Vec<RunEvent>, style: EventStyle)
    ensures
        strings_view(final(out)@) == strings_view(old(out)@) + kept_lines(events_view(events@), style_fn(style)),
{
    let ghost base = strings_view(out@);
    let ghost all = events_view(events@);
    let ghost f = style_fn(style);
    let mut i: usize = 0;
    assert(all.take(0) =~= Seq::<EventView>::empty());
    assert(base + kept_lines(all.take(0), f) =~= base);
    while i < events.len()
        invariant
            i <= events@.len(),
            all == events_view(events@),
            f == style_fn(style),
            strings_view(out@) == base + kept_lines(all.take(i as int), f),
        decreases events@.len() - i,
    {
        assert(all.take(i + 1).drop_last() =~= all.take(i as int));
        assert(all.take(i + 1).last() == events@[i as int]@);
        let line = match style {
            EventStyle::Full => full_event_text(&events[i]),
            EventStyle::Tail => tail_event_text(&events[i]),
            EventStyle::Chat => chat_event_text(&events[i]),
        };
        match line {
            Some(l) => {
                push_line(out, l);
                assert(strings_view(out@) =~= base + kept_lines(all.take(i + 1), f));
            },
            None => {
                assert(strings_view(out@) =~= base + kept_lines(all.take(i + 1), f));
            },
        }
        i = i + 1;
    }
    assert(all.take(all.len() as int) =~= all);
}

/// The state a report shows: the recorded one, `Failed` when the run
/// recorded none.
pub open spec fn state_name(state: Option<String>) -> Seq<char> {
    match state {
        Some(s) => s@,
        None => "Failed"@,
    }
}

fn state_text(state: &Option<String>) -> (r: &str)
    ensures
        r@ == state_name(*state),
{
    match state {
        Some(s) => s.as_str(),
        None => "Failed",
    }
}

/// The full report of a run (`SaCode`, its settings, the reply, the state,
/// the waiting question, the learned facts, the plan, the tool results and
/// the events), one item per line.
pub fn format_output(output: &RunReport) -> (r: String)
    ensures
        r@ == join(report_lines(*output), "\n"@),
{
    let mut lines: Vec<String> = Vec::new();
    assert(strings_view(lines@) =~= Seq::<Seq<char>>::empty());
    push_line(&mut lines, String::from_str("SaCode"));
    push_line(&mut lines, text2("Mode: ", mode_text(output.mode)));
    push_line(&mut lines, text2("Max Iterations: ", u64_to_string(output.max_iterations as u64).as_str()));
    push_line(&mut lines, text2("Task: ", output.prompt.as_str()));
    push_line(&mut lines, text2("Workspace: ", output.workspace.as_str()));
    push_line(&mut lines, text2("Tools: ", join_strings(&output.tool_names, ", ").as_str()));
    let ghost header = strings_view(lines@);
    match &output.provider_response {
        Ok(text) => {
            push_line(&mut lines, String::from_str("Provider Response:"));
            push_line(&mut lines, text.clone());
        },
        Err(e) => {
            push_line(&mut lines, text2("Provider: ", e.as_str()));
        },
    }
    push_line(&mut lines, text2("State: ", state_text(&output.state)));
    push_question(&mut lines, &output.pending_question);
    let ghost before_facts = strings_view(lines@);
    let ghost facts = facts_view(output.learned_facts@);
    if output.learned_facts.len() > 0 {
        push_line(&mut lines, String::from_str("Learned Facts:"));
        let mut i: usize = 0;
        assert(facts.take(0) =~= Seq::<FactView>::empty());
        while i < output.learned_facts.len()
            invariant
                i <= output.learned_facts@.len(),
                facts == facts_view(output.learned_facts@),
                strings_view(lines@) == before_facts + seq!["Learned Facts:"@] + fact_lines(facts.take(i as int)),
            decreases output.learned_facts@.len() - i,
        {
            assert(facts.take(i + 1).drop_last() =~= facts.take(i as int));
            assert(facts.take(i + 1).last() == output.learned_facts@[i as int]@);
            let f = &output.learned_facts[i];
            let mut l = text2("  - ", kind_text(f.kind));
            l.append(": ");
            l.append(f.content.as_str());
            push_line(&mut lines, l);
            i = i + 1;
        }
        assert(facts.take(facts.len() as int) =~= facts);
    }
    let ghost facts_section: Seq<Seq<char>> = if facts.len() == 0 {
        Seq::empty()
    } else {
        seq!["Learned Facts:"@] + fact_lines(facts)
    };
    assert(strings_view(lines@) =~= before_facts + facts_section);
    push_line(&mut lines, String::from_str("Plan:"));
    let ghost before_steps = strings_view(lines@);
    let mut i: usize = 0;
    assert(output.steps@.take(0) =~= Seq::<PlanStep>::empty());
    assert(before_steps + step_lines(output.steps@.take(0)) =~= before_steps);
    while i < output.steps.len()
        invariant
            i <= output.steps@.len(),
            strings_view(lines@) == before_steps + step_lines(output.steps@.take(i as int)),
        decreases output.steps@.len() - i,
    {
        assert(output.steps@.take(i + 1).drop_last() =~= output.steps@.take(i as int));
        let s = &output.steps[i];
        let mut l = text2("  ", u64_to_string(s.id as u64).as_str());
        l.append(". ");
        l.append(s.description.as_str());
        l.append(" [");
        l.append(s.status.as_str());
        l.append("]");
        push_line(&mut lines, l);
        i = i + 1;
    }
    assert(output.steps@.take(output.steps@.len() as int) =~= output.steps@);
    push_results(&mut lines, &output.tool_results);
    push_line(&mut lines, String::from_str("Events:"));
    push_events(&mut lines, &output.events, EventStyle::Full);
    proof {
        assert(style_fn(EventStyle::Full) == (|e: EventView| event_line(e)));
        assert(strings_view(lines@) =~= report_lines(*output));
    }
    join_strings(&lines, "\n")
}

/// The tail shown after a streamed run: the state, the waiting question,
/// the tool results and the tool, completion and error events.
pub fn format_stream_tail(output: &RunReport) -> (r: String)
    ensures
        r@ == join(tail_lines(*output), "\n"@),
{
    let mut lines: Vec<String> = Vec::new();
    assert(strings_view(lines@) =~= Seq::<Seq<char>>::empty());
    push_line(&mut lines, text2("State: ", state_text(&output.state)));
    push_question(&mut lines, &output.pending_question);
    push_results(&mut lines, &output.tool_results);
    let ghost before = strings_view(lines@);
    if output.events.len() > 0 {
        push_line(&mut lines, String::from_str("Events:"));
        push_events(&mut lines, &output.events, EventStyle::Tail);
        proof {
            assert(style_fn(EventStyle::Tail) == (|e: EventView| tail_event_line(e)));
        }
    }
    proof {
        assert(strings_view(lines@) =~= tail_lines(*output));
    }
    join_strings(&lines, "\n")
}

/// The reply shown in chat mode.
pub fn format_chat_output(output: &RunReport) -> (r: String)
    ensures
        r@ == chat_text(*output),
{
    match &output.provider_response {
        Ok(text) => text.clone(),
        Err(_) => {
            let mut lines: Vec<String> = Vec::new();
            assert(strings_view(lines@) =~= Seq::<Seq<char>>::empty());
            push_events(&mut lines, &output.events, EventStyle::Chat);
            proof {
                assert(style_fn(EventStyle::Chat) == (|e: EventView| chat_event_line(e)));
                assert(Seq::<Seq<char>>::empty() + kept_lines(events_view(output.events@), |e: EventView| chat_event_line(e))
                    =~= kept_lines(events_view(output.events@), |e: EventView| chat_event_line(e)));
            }
            if lines.len() == 0 {
                String::from_str("任务已完成。")
            } else {
                join_strings(&lines, "\n")
            }
        },
    }
}

/// The summary of a tool's output: the serialized output (or its
/// `content`) previewed, after the output's source in brackets when it has
/// one.
pub open spec fn tool_summary(source: Option<Seq<char>>, serialized: Seq<char>) -> Seq<char> {
    let prefix = match source {
        Some(s) => if s.len() > 0 { "["@ + s + "] "@ } else { Seq::empty() },
        None => Seq::empty(),
    };
    prefix + preview_text(serialized)
}

/// Executable `tool_summary`.
pub fn tool_output_summary(source: Option<&str>, serialized: &str) -> (r: String)
    ensures
        r@ == tool_summary(crate::provider_runtime::opt_str_view(source), serialized@),
{
    let mut out = String::new();
    if let Some(s) = source {
        if s.unicode_len() > 0 {
            out.append("[");
            out.append(s);
            out.append("] ");
        }
    }
    out.append(preview(serialized).as_str());
    out
}

/// The summary of a tool's output in a reply streamed from another
/// process: the output's text (its `content` when it has one) cut after 120
/// characters, after the output's source in brackets when it has one.
pub open spec fn reply_tool_summary(source: Option<Seq<char>>, text: Seq<char>) -> Seq<char> {
    let prefix = match source {
        Some(s) => if s.len() > 0 { "["@ + s + "] "@ } else { Seq::empty() },
        None => Seq::empty(),
    };
    prefix + crate::runner::preview_within(text, 120)
}

/// Executable `reply_tool_summary`.
pub fn reply_tool_output_summary(source: Option<&str>, text: &str) -> (r: String)
    ensures
        r@ == reply_tool_summary(crate::provider_runtime::opt_str_view(source), text@),
{
    let mut out = String::new();
    if let Some(s) = source {
        if s.unicode_len() > 0 {
            out.append("[");
            out.append(s);
            out.append("] ");
        }
    }
    out.append(crate::runner::preview_limited(text, 120).as_str());
    out
}


// ---------------------------------------------------------------------
// Events of a run in another process
// ---------------------------------------------------------------------

/// The line of an event reported by a run in a child process.
pub open spec fn cli_event_line(e: EventView) -> Option<Seq<char>> {
    match e {
        EventView::Message(c) => Some(c),
        EventView::Thinking(c) => Some("[思考] "@ + c),
        EventView::ToolStarted(n) => Some("[工具] "@ + n + " ...running"@),
        EventView::ToolFinished(n, ok, s) => {
            let head = "[工具] "@ + n + (if ok { " 完成 ✓"@ } else { " 失败 ✗"@ });
            if s.len() == 0 { Some(head) } else { Some(head + ": "@ + s) }
        },
        EventView::Done(s) => Some(s),
        EventView::Error(m) => Some("[错误] "@ + m),
        EventView::Other => None,
    }
}

fn cli_event_text(e: &RunEvent) -> (r: Option<String>)
    ensures
        crate::task_store::opt_view(r) == cli_event_line(e@),
{
    match e {
        RunEvent::Message(c) => Some(c.clone()),
        RunEvent::Thinking(c) => Some(text2("[思考] ", c.as_str())),
        RunEvent::ToolStarted(n) => {
            let mut t = text2("[工具] ", n.as_str());
            t.append(" ...running");
            Some(t)
        },
        RunEvent::ToolFinished(n, ok, s) => {
            let mut t = text2("[工具] ", n.as_str());
            t.append(if *ok { " 完成 ✓" } else { " 失败 ✗" });
            if s.as_str().unicode_len() > 0 {
                t.append(": ");
                t.append(s.as_str());
            }
            Some(t)
        },
        RunEvent::Done(s) => Some(s.clone()),
        RunEvent::Error(m) => Some(text2("[错误] ", m.as_str())),
        RunEvent::Other => None,
    }
}

/// The events of a child run as text, one line each; none when no event
/// gives a line.
pub open spec fn cli_events_text(events: Seq<EventView>) -> Option<Seq<char>> {
    let lines = kept_lines(events, |e: EventView| cli_event_line(e));
    if lines.len() == 0 { None } else { Some(join(lines, "\n"@)) }
}

/// Executable `cli_events_text`.
pub fn format_cli_events(events: &Vec<RunEvent>) -> (r: Option<String>)
    ensures
        crate::task_store::opt_view(r) == cli_events_text(events_view(events@)),
{
    let ghost all = events_view(events@);
    let ghost f = |e: EventView| cli_event_line(e);
    let mut lines: Vec<String> = Vec::new();
    let mut i: usize = 0;
    assert(all.take(0) =~= Seq::<EventView>::empty());
    assert(strings_view(lines@) =~= Seq::<Seq<char>>::empty());
    while i < events.len()
        invariant
            i <= events@.len(),
            all == events_view(events@),
            f == (|e: EventView| cli_event_line(e)),
            strings_view(lines@) == kept_lines(all.take(i as int), f),
        decreases events@.len() - i,
    {
        assert(all.take(i + 1).drop_last() =~= all.take(i as int));
        assert(all.take(i + 1).last() == events@[i as int]@);
        match cli_event_text(&events[i]) {
            Some(l) => {
                push_line(&mut lines, l);
            },
            None => {},
        }
        i = i + 1;
    }
    assert(all.take(all.len() as int) =~= all);
    if lines.len() == 0 {
        None
    } else {
        Some(join_strings(&lines, "\n"))
    }
}

/// Text that is not blank.
pub open spec fn non_blank(o: Option<Seq<char>>) -> Option<Seq<char>> {
    match o {
        Some(s) => if crate::text::trim(s).len() > 0 { Some(s) } else { None },
        None => None,
    }
}

/// The reply shown for a run in a child process: the provider's response
/// when it is not blank, else the text of the events when that is not
/// blank, else none.
pub open spec fn merged_response(events: Option<Seq<char>>, provider_response: Option<Seq<char>>) -> Option<Seq<char>> {
    match non_blank(provider_response) {
        Some(r) => Some(r),
        None => non_blank(events),
    }
}

/// Executable `merged_response`.
pub fn merge_cli_response(events: Option<String>, provider_response: Option<String>) -> (r: Option<String>)
    ensures
        crate::task_store::opt_view(r) == merged_response(
            crate::task_store::opt_view(events),
            crate::task_store::opt_view(provider_response),
        ),
{
    match provider_response {
        Some(p) => {
            if crate::text::trim_str(p.as_str()).as_str().unicode_len() > 0 {
                return Some(p);
            }
        },
        None => {},
    }
    match events {
        Some(e) => {
            if crate::text::trim_str(e.as_str()).as_str().unicode_len() > 0 {
                Some(e)
            } else {
                None
            }
        },
        None => None,
    }
}

} // verus!

//! Execution modes: the `/mode` command, the Alt+M cycle, and what
//! switching announces.

use vstd::prelude::*;
use crate::interaction::ExecutionMode;
use crate::task_store::strings_view;
use crate::words::{words, split_whitespace};

verus! {

/// A name a mode is switched by (and saved under).
#[derive(Debug, Clone, Copy, PartialEq, Eq, Structural)]
pub enum ModeWord {
    Plan,
    Build,
    Auto,
    Yolo,
}

impl ModeWord {
    pub open spec fn text_of(self) -> Seq<char> {
        match self {
            ModeWord::Plan => "plan"@,
            ModeWord::Build => "build"@,
            ModeWord::Auto => "auto"@,
            ModeWord::Yolo => "yolo"@,
        }
    }

    /// The name as saved in the configuration.
    pub fn text(self) -> (r: &'static str)
        ensures
            r@ == self.text_of(),
    {
        match self {
            ModeWord::Plan => "plan",
            ModeWord::Build => "build",
            ModeWord::Auto => "auto",
            ModeWord::Yolo => "yolo",
        }
    }

    pub open spec fn mode_of(self) -> ExecutionMode {
        match self {
            ModeWord::Plan => ExecutionMode::Plan,
            ModeWord::Build => ExecutionMode::Build,
            _ => ExecutionMode::Yolo,
        }
    }

    /// The mode the name switches to: `auto` and `yolo` both mean the
    /// mode that runs without asking.
    pub fn mode(self) -> (r: ExecutionMode)
        ensures
            r == self.mode_of(),
    {
        match self {
            ModeWord::Plan => ExecutionMode::Plan,
            ModeWord::Build => ExecutionMode::Build,
            _ => ExecutionMode::Yolo,
        }
    }
}

/// The row of a mode in the mode picker.
pub fn mode_index(mode: ExecutionMode) -> (r: usize)
    ensures
        r == match mode {
            ExecutionMode::Plan => 0usize,
            ExecutionMode::Build => 1usize,
            ExecutionMode::Yolo => 2usize,
        },
{
    match mode {
        ExecutionMode::Plan => 0,
        ExecutionMode::Build => 1,
        ExecutionMode::Yolo => 2,
    }
}

pub open spec fn switched_text(mode: ExecutionMode) -> Seq<char> {
    match mode {
        ExecutionMode::Plan => "执行模式已切换为 Plan（规划模式）。\nAI 将先规划步骤，再等待确认执行。"@,
        ExecutionMode::Build => "执行模式已切换为 Build（构建模式）。\nAI 将直接执行任务。"@,
        ExecutionMode::Yolo => "执行模式已切换为 Auto（自动执行模式）。\nAI 将自动执行，减少确认步骤。"@,
    }
}

/// The notice shown after switching to a mode.
pub fn mode_switched_notice(mode: ExecutionMode) -> (r: &'static str)
    ensures
        r@ == switched_text(mode),
{
    match mode {
        ExecutionMode::Plan => "执行模式已切换为 Plan（规划模式）。\nAI 将先规划步骤，再等待确认执行。",
        ExecutionMode::Build => "执行模式已切换为 Build（构建模式）。\nAI 将直接执行任务。",
        ExecutionMode::Yolo => "执行模式已切换为 Auto（自动执行模式）。\nAI 将自动执行，减少确认步骤。",
    }
}

pub open spec fn next_word(mode: ExecutionMode) -> ModeWord {
    match mode {
        ExecutionMode::Plan => ModeWord::Build,
        ExecutionMode::Build => ModeWord::Yolo,
        ExecutionMode::Yolo => ModeWord::Plan,
    }
}

/// Alt+M: plan, then build, then the mode that runs without asking, then
/// plan again.
pub fn cycle_mode(mode: ExecutionMode) -> (r: ModeWord)
    ensures
        r == next_word(mode),
{
    match mode {
        ExecutionMode::Plan => ModeWord::Build,
        ExecutionMode::Build => ModeWord::Yolo,
        ExecutionMode::Yolo => ModeWord::Plan,
    }
}

/// What a `/mode` line asks for.
#[derive(Debug, Clone, Copy, PartialEq, Eq, Structural)]
pub enum ModeRequest {
    Switch(ModeWord),
    /// No mode named: the picker opens.
    OpenPicker,
    /// An unknown mode: the usage is shown.
    Usage,
}

/// The request of a `/mode` line, from its second word.
pub open spec fn mode_request_of(w: Seq<Seq<char>>) -> ModeRequest {
    let sub = if w.len() > 1 { w[1] } else { Seq::<char>::empty() };
    if sub == "plan"@ {
        ModeRequest::Switch(ModeWord::Plan)
    } else if sub == "build"@ {
        ModeRequest::Switch(ModeWord::Build)
    } else if sub == "auto"@ || sub == "yolo"@ {
        ModeRequest::Switch(ModeWord::Auto)
    } else if sub.len() == 0 {
        ModeRequest::OpenPicker
    } else {
        ModeRequest::Usage
    }
}

fn is_text(a: &str, b: &str) -> (r: bool)
    ensures
        r == (a@ == b@),
{
    crate::text::chars_eq(crate::text::to_chars(a).as_slice(), crate::text::to_chars(b).as_slice())
}

/// Reads a `/mode` line.
pub fn parse_mode_command(line: &str) -> (r: ModeRequest)
    ensures
        r == mode_request_of(words(line@)),
{
    let w = split_whitespace(line);
    let sub: &str = if w.len() > 1 { w[1].as_str() } else { "" };
    proof {
        reveal_strlit("");
        assert(""@ =~= Seq::<char>::empty());
        if w.len() > 1 {
            assert(strings_view(w@)[1] == w@[1]@);
        }
        assert(sub@ == (if words(line@).len() > 1 { words(line@)[1] } else { Seq::<char>::empty() }));
    }
    if is_text(sub, "plan") {
        ModeRequest::Switch(ModeWord::Plan)
    } else if is_text(sub, "build") {
        ModeRequest::Switch(ModeWord::Build)
    } else if is_text(sub, "auto") || is_text(sub, "yolo") {
        ModeRequest::Switch(ModeWord::Auto)
    } else if sub.unicode_len() == 0 {
        ModeRequest::OpenPicker
    } else {
        ModeRequest::Usage
    }
}

/// Cycling through the modes three times comes back to the same mode.
pub proof fn law_cycle_returns_after_three(mode: ExecutionMode)
    ensures
        next_word(next_word(next_word(mode).mode_of()).mode_of()).mode_of() == mode,
{
}

} // verus!

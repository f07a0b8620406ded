//! The line-oriented REPL: what a typed line is, which command it names,
//! the `/skill` sub-commands, answers typed at a prompt and numbered
//! choices.

use vstd::prelude::*;
use crate::task_store::{strings_view, opt_view};
use crate::text::{trim, trim_str};
use crate::words::{words, split_whitespace};
use crate::service_commands::{is_text, rest_from, rest_words};
use crate::interaction::ExecutionMode;

verus! {

// ---------------------------------------------------------------------
// Lines
// ---------------------------------------------------------------------

/// What a line typed at the REPL prompt is.
#[derive(Debug)]
pub enum ReplInput {
    /// Nothing but blanks: the prompt comes again.
    Blank,
    /// A command (the trimmed line, starting with `/`).
    Command(String),
    /// A task to run (the trimmed line).
    Task(String),
}

pub ghost enum ReplInputView {
    Blank,
    Command(Seq<char>),
    Task(Seq<char>),
}

impl View for ReplInput {
    type V = ReplInputView;

    open spec fn view(&self) -> ReplInputView {
        match self {
            ReplInput::Blank => ReplInputView::Blank,
            ReplInput::Command(c) => ReplInputView::Command(c@),
            ReplInput::Task(t) => ReplInputView::Task(t@),
        }
    }
}

pub open spec fn repl_input_of(line: Seq<char>) -> ReplInputView {
    let t = trim(line);
    if t.len() == 0 {
        ReplInputView::Blank
    } else if t[0] == '/' {
        ReplInputView::Command(t)
    } else {
        ReplInputView::Task(t)
    }
}

/// Reads a line typed at the prompt.
pub fn classify_repl_line(line: &str) -> (r: ReplInput)
    ensures
        r@ == repl_input_of(line@),
{
    let t = trim_str(line);
    if t.as_str().unicode_len() == 0 {
        ReplInput::Blank
    } else if t.as_str().get_char(0) == '/' {
        ReplInput::Command(t)
    } else {
        ReplInput::Task(t)
    }
}

// ---------------------------------------------------------------------
// Commands
// ---------------------------------------------------------------------

/// What `/skill` is asked to do.
#[derive(Debug)]
pub enum SkillCommand {
    /// List the skills (also for `/skill` alone).
    List,
    Show(String),
    /// Run a skill with the rest of the line as its input.
    Run(String, String),
    /// Save a project skill: name, description and prompt.
    Add(String, String, String),
    Remove(String),
    ShowUsage,
    RunUsage,
    AddUsage,
    RemoveUsage,
    Unknown(String),
}

pub ghost enum SkillCommandView {
    List,
    Show(Seq<char>),
    Run(Seq<char>, Seq<char>),
    Add(Seq<char>, Seq<char>, Seq<char>),
    Remove(Seq<char>),
    ShowUsage,
    RunUsage,
    AddUsage,
    RemoveUsage,
    Unknown(Seq<char>),
}

impl View for SkillCommand {
    type V = SkillCommandView;

    open spec fn view(&self) -> SkillCommandView {
        match self {
            SkillCommand::List => SkillCommandView::List,
            SkillCommand::Show(n) => SkillCommandView::Show(n@),
            SkillCommand::Run(n, a) => SkillCommandView::Run(n@, a@),
            SkillCommand::Add(n, d, p) => SkillCommandView::Add(n@, d@, p@),
            SkillCommand::Remove(n) => SkillCommandView::Remove(n@),
            SkillCommand::ShowUsage => SkillCommandView::ShowUsage,
            SkillCommand::RunUsage => SkillCommandView::RunUsage,
            SkillCommand::AddUsage => SkillCommandView::AddUsage,
            SkillCommand::RemoveUsage => SkillCommandView::RemoveUsage,
            SkillCommand::Unknown(c) => SkillCommandView::Unknown(c@),
        }
    }
}

/// The `/skill` sub-command of the words of a line (`w[0]` is `/skill`).
pub open spec fn skill_command_of(w: Seq<Seq<char>>) -> SkillCommandView {
    if w.len() <= 1 || w[1] == "list"@ {
        SkillCommandView::List
    } else if w[1] == "show"@ {
        if w.len() > 2 { SkillCommandView::Show(w[2]) } else { SkillCommandView::ShowUsage }
    } else if w[1] == "run"@ {
        if w.len() > 2 { SkillCommandView::Run(w[2], rest_from(w, 3)) } else { SkillCommandView::RunUsage }
    } else if w[1] == "add"@ {
        if w.len() >= 5 { SkillCommandView::Add(w[2], w[3], rest_from(w, 4)) } else { SkillCommandView::AddUsage }
    } else if w[1] == "remove"@ {
        if w.len() > 2 { SkillCommandView::Remove(w[2]) } else { SkillCommandView::RemoveUsage }
    } else {
        SkillCommandView::Unknown(w[1])
    }
}

/// A REPL command.
#[derive(Debug)]
pub enum ReplCommand {
    /// No word at all.
    Empty,
    Exit,
    Help,
    Connect,
    /// `/mode`, with the mode asked for if any.
    Mode(Option<String>),
    Tools,
    Skills,
    Skill(SkillCommand),
    Mcp,
    /// `/mcp-show`, with the server name if any.
    McpShow(Option<String>),
    /// `/mcp-remove`, with the server name if any.
    McpRemove(Option<String>),
    Login,
    Providers,
    ProviderRename,
    ProviderRemove,
    Models,
    Clear,
    /// An unknown command word.
    Unknown(String),
}

pub ghost enum ReplCommandView {
    Empty,
    Exit,
    Help,
    Connect,
    Mode(Option<Seq<char>>),
    Tools,
    Skills,
    Skill(SkillCommandView),
    Mcp,
    McpShow(Option<Seq<char>>),
    McpRemove(Option<Seq<char>>),
    Login,
    Providers,
    ProviderRename,
    ProviderRemove,
    Models,
    Clear,
    Unknown(Seq<char>),
}

impl View for ReplCommand {
    type V = ReplCommandView;

    open spec fn view(&self) -> ReplCommandView {
        match self {
            ReplCommand::Empty => ReplCommandView::Empty,
            ReplCommand::Exit => ReplCommandView::Exit,
            ReplCommand::Help => ReplCommandView::Help,
            ReplCommand::Connect => ReplCommandView::Connect,
            ReplCommand::Mode(m) => ReplCommandView::Mode(opt_view(*m)),
            ReplCommand::Tools => ReplCommandView::Tools,
            ReplCommand::Skills => ReplCommandView::Skills,
            ReplCommand::Skill(s) => ReplCommandView::Skill(s@),
            ReplCommand::Mcp => ReplCommandView::Mcp,
            ReplCommand::McpShow(n) => ReplCommandView::McpShow(opt_view(*n)),
            ReplCommand::McpRemove(n) => ReplCommandView::McpRemove(opt_view(*n)),
            ReplCommand::Login => ReplCommandView::Login,
            ReplCommand::Providers => ReplCommandView::Providers,
            ReplCommand::ProviderRename => ReplCommandView::ProviderRename,
            ReplCommand::ProviderRemove => ReplCommandView::ProviderRemove,
            ReplCommand::Models => ReplCommandView::Models,
            ReplCommand::Clear => ReplCommandView::Clear,
            ReplCommand::Unknown(c) => ReplCommandView::Unknown(c@),
        }
    }
}

/// The command named by the words of a line.
pub open spec fn repl_command_of(w: Seq<Seq<char>>) -> ReplCommandView {
    let second = if w.len() > 1 { Some(w[1]) } else { None };
    if w.len() == 0 {
        ReplCommandView::Empty
    } else if w[0] == "/exit"@ || w[0] == "/quit"@ || w[0] == "/q"@ {
        ReplCommandView::Exit
    } else if w[0] == "/help"@ || w[0] == "/h"@ {
        ReplCommandView::Help
    } else if w[0] == "/connect"@ {
        ReplCommandView::Connect
    } else if w[0] == "/mode"@ {
        ReplCommandView::Mode(second)
    } else if w[0] == "/tools"@ {
        ReplCommandView::Tools
    } else if w[0] == "/skills"@ {
        ReplCommandView::Skills
    } else if w[0] == "/skill"@ {
        ReplCommandView::Skill(skill_command_of(w))
    } else if w[0] == "/mcp"@ {
        ReplCommandView::Mcp
    } else if w[0] == "/mcp-show"@ {
        ReplCommandView::McpShow(second)
    } else if w[0] == "/mcp-remove"@ {
        ReplCommandView::McpRemove(second)
    } else if w[0] == "/login"@ {
        ReplCommandView::Login
    } else if w[0] == "/providers"@ {
        ReplCommandView::Providers
    } else if w[0] == "/provider-rename"@ {
        ReplCommandView::ProviderRename
    } else if w[0] == "/provider-remove"@ {
        ReplCommandView::ProviderRemove
    } else if w[0] == "/models"@ {
        ReplCommandView::Models
    } else if w[0] == "/clear"@ {
        ReplCommandView::Clear
    } else {
        ReplCommandView::Unknown(w[0])
    }
}

fn parse_skill_command(w: &Vec<String>) -> (r: SkillCommand)
    ensures
        r@ == skill_command_of(strings_view(w@)),
{
    let n = w.len();
    proof {
        if n > 1 {
            assert(strings_view(w@)[1] == w@[1]@);
        }
        if n > 2 {
            assert(strings_view(w@)[2] == w@[2]@);
        }
        if n > 3 {
            assert(strings_view(w@)[3] == w@[3]@);
        }
    }
    if n <= 1 || is_text(w[1].as_str(), "list") {
        SkillCommand::List
    } else if is_text(w[1].as_str(), "show") {
        if n > 2 { SkillCommand::Show(w[2].clone()) } else { SkillCommand::ShowUsage }
    } else if is_text(w[1].as_str(), "run") {
        if n > 2 { SkillCommand::Run(w[2].clone(), rest_words(w, 3)) } else { SkillCommand::RunUsage }
    } else if is_text(w[1].as_str(), "add") {
        if n >= 5 {
            SkillCommand::Add(w[2].clone(), w[3].clone(), rest_words(w, 4))
        } else {
            SkillCommand::AddUsage
        }
    } else if is_text(w[1].as_str(), "remove") {
        if n > 2 { SkillCommand::Remove(w[2].clone()) } else { SkillCommand::RemoveUsage }
    } else {
        SkillCommand::Unknown(w[1].clone())
    }
}

/// Reads a command line (its words, split at whitespace).
pub fn parse_repl_command(line: &str) -> (r: ReplCommand)
    ensures
        r@ == repl_command_of(words(line@)),
{
    let w = split_whitespace(line);
    let n = w.len();
    if n == 0 {
        return ReplCommand::Empty;
    }
    proof {
        assert(strings_view(w@)[0] == w@[0]@);
        if n > 1 {
            assert(strings_view(w@)[1] == w@[1]@);
        }
    }
    let second = if n > 1 { Some(w[1].clone()) } else { None };
    let c = w[0].as_str();
    if is_text(c, "/exit") || is_text(c, "/quit") || is_text(c, "/q") {
        ReplCommand::Exit
    } else if is_text(c, "/help") || is_text(c, "/h") {
        ReplCommand::Help
    } else if is_text(c, "/connect") {
        ReplCommand::Connect
    } else if is_text(c, "/mode") {
        ReplCommand::Mode(second)
    } else if is_text(c, "/tools") {
        ReplCommand::Tools
    } else if is_text(c, "/skills") {
        ReplCommand::Skills
    } else if is_text(c, "/skill") {
        ReplCommand::Skill(parse_skill_command(&w))
    } else if is_text(c, "/mcp") {
        ReplCommand::Mcp
    } else if is_text(c, "/mcp-show") {
        ReplCommand::McpShow(second)
    } else if is_text(c, "/mcp-remove") {
        ReplCommand::McpRemove(second)
    } else if is_text(c, "/login") {
        ReplCommand::Login
    } else if is_text(c, "/providers") {
        ReplCommand::Providers
    } else if is_text(c, "/provider-rename") {
        ReplCommand::ProviderRename
    } else if is_text(c, "/provider-remove") {
        ReplCommand::ProviderRemove
    } else if is_text(c, "/models") {
        ReplCommand::Models
    } else if is_text(c, "/clear") {
        ReplCommand::Clear
    } else {
        ReplCommand::Unknown(w[0].clone())
    }
}

/// The line `handle_command` prints for an unknown command, `/mode` word
/// or `/skill` sub-command, and the usage line of an incomplete `/skill`
/// command; none for the others.
pub open spec fn repl_notice_of(c: ReplCommandView) -> Option<Seq<char>> {
    match c {
        ReplCommandView::Unknown(w) => Some("Unknown command: "@ + w),
        ReplCommandView::Mode(Some(m)) => if mode_of_word(m) is None {
            Some("Unknown mode: "@ + m)
        } else {
            None
        },
        ReplCommandView::Skill(s) => match s {
            SkillCommandView::ShowUsage => Some("Usage: /skill show <name>"@),
            SkillCommandView::RunUsage => Some("Usage: /skill run <name> [args...]"@),
            SkillCommandView::AddUsage => Some("Usage: /skill add <name> <description> <prompt>"@),
            SkillCommandView::RemoveUsage => Some("Usage: /skill remove <name>"@),
            SkillCommandView::Unknown(w) => Some("Unknown /skill command: "@ + w),
            _ => None,
        },
        _ => None,
    }
}

/// Executable `repl_notice_of`.
pub fn repl_notice(c: &ReplCommand) -> (r: Option<String>)
    ensures
        opt_view(r) == repl_notice_of(c@),
{
    match c {
        ReplCommand::Unknown(w) => Some(join2("Unknown command: ", w.as_str())),
        ReplCommand::Mode(Some(m)) => match parse_repl_mode(m.as_str()) {
            None => Some(join2("Unknown mode: ", m.as_str())),
            Some(_) => None,
        },
        ReplCommand::Skill(s) => match s {
            SkillCommand::ShowUsage => Some(String::from_str("Usage: /skill show <name>")),
            SkillCommand::RunUsage => Some(String::from_str("Usage: /skill run <name> [args...]")),
            SkillCommand::AddUsage => Some(String::from_str("Usage: /skill add <name> <description> <prompt>")),
            SkillCommand::RemoveUsage => Some(String::from_str("Usage: /skill remove <name>")),
            SkillCommand::Unknown(w) => Some(join2("Unknown /skill command: ", w.as_str())),
            _ => None,
        },
        _ => None,
    }
}

fn join2(a: &str, b: &str) -> (r: String)
    ensures
        r@ == a@ + b@,
{
    let mut s = String::from_str(a);
    s.append(b);
    s
}

/// The mode a `/mode` word names.
pub open spec fn mode_of_word(m: Seq<char>) -> Option<ExecutionMode> {
    if m == "plan"@ {
        Some(ExecutionMode::Plan)
    } else if m == "build"@ {
        Some(ExecutionMode::Build)
    } else if m == "yolo"@ {
        Some(ExecutionMode::Yolo)
    } else {
        None
    }
}

/// Executable `mode_of_word`.
pub fn parse_repl_mode(m: &str) -> (r: Option<ExecutionMode>)
    ensures
        r == mode_of_word(m@),
{
    if is_text(m, "plan") {
        Some(ExecutionMode::Plan)
    } else if is_text(m, "build") {
        Some(ExecutionMode::Build)
    } else if is_text(m, "yolo") {
        Some(ExecutionMode::Yolo)
    } else {
        None
    }
}

// ---------------------------------------------------------------------
// Prompts and numbered choices
// ---------------------------------------------------------------------

/// The prompt shown before reading an answer: the label, then the default
/// in brackets when there is one.
pub fn prompt_text(label: &str, default: Option<&str>) -> (r: String)
    ensures
        r@ == match default {
            Some(d) => label@ + " ["@ + d@ + "]: "@,
            None => label@ + ": "@,
        },
{
    let mut s = String::from_str(label);
    match default {
        Some(d) => {
            s.append(" [");
            s.append(d);
            s.append("]: ");
        },
        None => {
            s.append(": ");
        },
    }
    s
}

/// The answer read at a prompt: the trimmed line; a blank line takes the
/// default, and without one the answer is missing.
pub open spec fn prompt_answer_of(line: Seq<char>, label: Seq<char>, default: Option<Seq<char>>) -> Result<Seq<char>, Seq<char>> {
    let t = trim(line);
    if t.len() > 0 {
        Ok(t)
    } else {
        match default {
            Some(d) => Ok(d),
            None => Err(label + " is required"@),
        }
    }
}

/// Executable `prompt_answer_of`; the error is the message to show.
pub fn prompt_answer(line: &str, label: &str, default: Option<&str>) -> (r: Result<String, String>)
    ensures
        match r {
            Ok(a) => prompt_answer_of(line@, label@, match default { Some(d) => Some(d@), None => None }) == Ok::<Seq<char>, Seq<char>>(a@),
            Err(e) => prompt_answer_of(line@, label@, match default { Some(d) => Some(d@), None => None }) == Err::<Seq<char>, Seq<char>>(e@),
        },
{
    let t = trim_str(line);
    if t.as_str().unicode_len() > 0 {
        Ok(t)
    } else {
        match default {
            Some(d) => Ok(String::from_str(d)),
            None => Err(join2(label, " is required")),
        }
    }
}

/// Why a numbered choice failed.
#[derive(Debug, Clone, Copy, PartialEq, Eq, Structural)]
pub enum PickError {
    /// The answer is not a number.
    NotANumber,
    /// No entry has that number.
    OutOfRange,
}

/// The entry picked by typing its number (counted from 1; `0` picks the
/// first, as `saturating_sub` does).
pub open spec fn picked(choices: Seq<Seq<char>>, selection: Seq<char>) -> Result<Seq<char>, PickError> {
    match crate::design::parsed_usize(selection) {
        None => Err(PickError::NotANumber),
        Some(n) => {
            let i = if n == 0 { 0 } else { n - 1 };
            if i < choices.len() { Ok(choices[i]) } else { Err(PickError::OutOfRange) }
        },
    }
}

/// Executable `picked`.
pub fn pick_numbered(choices: &Vec<String>, selection: &str) -> (r: Result<String, PickError>)
    ensures
        match r {
            Ok(s) => picked(strings_view(choices@), selection@) == Ok::<Seq<char>, PickError>(s@),
            Err(e) => picked(strings_view(choices@), selection@) == Err::<Seq<char>, PickError>(e),
        },
{
    match crate::design::parse_usize(selection) {
        None => Err(PickError::NotANumber),
        Some(n) => {
            let i = if n == 0 { 0 } else { n - 1 };
            if i < choices.len() {
                assert(strings_view(choices@)[i as int] == choices@[i as int]@);
                Ok(choices[i].clone())
            } else {
                Err(PickError::OutOfRange)
            }
        },
    }
}

/// The choices listed with their numbers, the current one marked with
/// `*`: `"  * 1. name"`.
pub open spec fn marked_lines(choices: Seq<Seq<char>>, current: Seq<char>) -> Seq<Seq<char>> {
    Seq::new(choices.len(), |i: int|
        "  "@ + (if choices[i] == current { "*"@ } else { " "@ }) + " "@ + crate::text::decimal((i + 1) as nat) + ". "@ + choices[i])
}

/// Executable `marked_lines`.
pub fn marked_choice_lines(choices: &Vec<String>, current: &str) -> (r: Vec<String>)
    requires
        choices@.len() < u64::MAX,
    ensures
        strings_view(r@) == marked_lines(strings_view(choices@), current@),
{
    let mut out: Vec<String> = Vec::new();
    let mut i: usize = 0;
    while i < choices.len()
        invariant
            i <= choices@.len(),
            choices@.len() < u64::MAX,
            strings_view(out@) == marked_lines(strings_view(choices@), current@).take(i as int),
        decreases choices@.len() - i,
    {
        let mut s = String::from_str("  ");
        s.append(if is_text(choices[i].as_str(), current) { "*" } else { " " });
        s.append(" ");
        s.append(crate::text::u64_to_string((i + 1) as u64).as_str());
        s.append(". ");
        s.append(choices[i].as_str());
        let ghost prev = out@;
        proof {
            assert(strings_view(choices@)[i as int] == choices@[i as int]@);
        }
        out.push(s);
        proof {
            prev.lemma_push_map_commute(|x: String| x@, s);
            assert(marked_lines(strings_view(choices@), current@).take(i + 1)
                =~= marked_lines(strings_view(choices@), current@).take(i as int).push(s@));
        }
        i = i + 1;
    }
    assert(marked_lines(strings_view(choices@), current@).take(choices@.len() as int)
        =~= marked_lines(strings_view(choices@), current@));
    out
}

/// The providers that may be removed: all but the current one, in order.
pub fn removable_providers(names: &Vec<String>, current: &str) -> (r: Vec<String>)
    ensures
        strings_view(r@) == strings_view(names@).filter(|n: Seq<char>| n != current@),
{
    let ghost all = strings_view(names@);
    let mut out: Vec<String> = Vec::new();
    let mut i: usize = 0;
    assert(all.take(0).filter(|n: Seq<char>| n != current@) =~= Seq::<Seq<char>>::empty());
    while i < names.len()
        invariant
            i <= names@.len(),
            all == strings_view(names@),
            strings_view(out@) == all.take(i as int).filter(|n: Seq<char>| n != current@),
        decreases names@.len() - i,
    {
        proof {
            assert(all.take(i + 1) =~= all.take(i as int).push(all[i as int]));
            all.take(i as int).lemma_filter_push(all[i as int], |n: Seq<char>| n != current@);
            assert(all[i as int] == names@[i as int]@);
        }
        if !is_text(names[i].as_str(), current) {
            let ghost prev = out@;
            let x = names[i].clone();
            out.push(x);
            proof {
                prev.lemma_push_map_commute(|s: String| s@, x);
            }
        }
        i = i + 1;
    }
    assert(all.take(all.len() as int) =~= all);
    out
}

// ---------------------------------------------------------------------
// Connecting a provider
// ---------------------------------------------------------------------

/// The preset provider (name and base URL) a `/connect` number picks.
pub open spec fn connect_preset_of(index: usize) -> Option<(Seq<char>, Seq<char>)> {
    if index == 1 {
        Some(("ollama"@, "http://127.0.0.1:11434/v1"@))
    } else if index == 2 {
        Some(("deepseek"@, "https://api.deepseek.com"@))
    } else if index == 3 {
        Some(("mimo"@, "https://token-plan-cn.xiaomimimo.com/v1"@))
    } else if index == 4 {
        Some(("longcat"@, "https://api.longcat.chat/openai/v1"@))
    } else if index == 5 {
        Some(("openai"@, "https://api.openai.com/v1"@))
    } else {
        None
    }
}

/// Executable `connect_preset_of`.
pub fn connect_preset(index: usize) -> (r: Option<(&'static str, &'static str)>)
    ensures
        match r {
            Some((n, u)) => connect_preset_of(index) == Some((n@, u@)),
            None => connect_preset_of(index) is None,
        },
{
    if index == 1 {
        Some(("ollama", "http://127.0.0.1:11434/v1"))
    } else if index == 2 {
        Some(("deepseek", "https://api.deepseek.com"))
    } else if index == 3 {
        Some(("mimo", "https://token-plan-cn.xiaomimimo.com/v1"))
    } else if index == 4 {
        Some(("longcat", "https://api.longcat.chat/openai/v1"))
    } else if index == 5 {
        Some(("openai", "https://api.openai.com/v1"))
    } else {
        None
    }
}

/// The model a provider is connected with: the first model the provider
/// listed, else the first built-in fallback of that provider, else none.
/// The flag says whether the list came from the provider.
pub open spec fn connect_model_of(fetched: Option<Seq<Seq<char>>>, fallbacks: Seq<Seq<char>>) -> Option<(Seq<char>, bool)> {
    match fetched {
        Some(m) if m.len() > 0 => Some((m[0], true)),
        _ => if fallbacks.len() > 0 { Some((fallbacks[0], false)) } else { None },
    }
}

/// Executable `connect_model_of`; `fetched` is what listing the provider's
/// models gave (none when it failed).
pub fn connect_model(fetched: &Option<Vec<String>>, fallbacks: &Vec<String>) -> (r: Option<(String, bool)>)
    ensures
        match r {
            Some((m, f)) => connect_model_of(
                match fetched { Some(v) => Some(strings_view(v@)), None => None },
                strings_view(fallbacks@),
            ) == Some((m@, f)),
            None => connect_model_of(
                match fetched { Some(v) => Some(strings_view(v@)), None => None },
                strings_view(fallbacks@),
            ) is None,
        },
{
    match fetched {
        Some(m) => {
            if m.len() > 0 {
                assert(strings_view(m@)[0] == m@[0]@);
                return Some((m[0].clone(), true));
            }
        },
        None => {},
    }
    if fallbacks.len() > 0 {
        assert(strings_view(fallbacks@)[0] == fallbacks@[0]@);
        Some((fallbacks[0].clone(), false))
    } else {
        None
    }
}

/// The model `/login` keeps: the one configured before, or else the first
/// model the provider listed (none when it listed none).
pub fn login_model(existing: &str, fetched: &Vec<String>) -> (r: String)
    ensures
        r@ == (if existing@.len() == 0 && fetched@.len() > 0 { fetched@[0]@ } else { existing@ }),
{
    if existing.unicode_len() == 0 && fetched.len() > 0 {
        fetched[0].clone()
    } else {
        String::from_str(existing)
    }
}


// ---------------------------------------------------------------------
// `/connect <number> [api_key]` in the interface
// ---------------------------------------------------------------------

/// What a `/connect <number> [api_key]` line asks for.
#[derive(Debug)]
pub enum ConnectRequest {
    /// No number.
    Usage,
    /// The number is not a number.
    NotANumber,
    /// No preset has that number.
    Invalid(usize),
    /// The preset's name and base URL, and the API key given (empty when
    /// none).
    Preset(&'static str, &'static str, String),
}

pub open spec fn connect_request_ok(w: Seq<Seq<char>>, r: ConnectRequest) -> bool {
    if w.len() <= 1 {
        r is Usage
    } else {
        match crate::design::parsed_usize(w[1]) {
            None => r is NotANumber,
            Some(n) => match connect_preset_of(n) {
                None => r == ConnectRequest::Invalid(n),
                Some((name, url)) => r matches ConnectRequest::Preset(rn, ru, k) && rn@ == name && ru@ == url
                    && k@ == (if w.len() > 2 { w[2] } else { Seq::<char>::empty() }),
            },
        }
    }
}

/// Reads a `/connect <number> [api_key]` line.
pub fn parse_connect_command(line: &str) -> (r: ConnectRequest)
    ensures
        connect_request_ok(words(line@), r),
{
    let w = split_whitespace(line);
    if w.len() <= 1 {
        return ConnectRequest::Usage;
    }
    proof {
        assert(strings_view(w@)[1] == w@[1]@);
        if w@.len() > 2 {
            assert(strings_view(w@)[2] == w@[2]@);
        }
    }
    match crate::design::parse_usize(w[1].as_str()) {
        None => ConnectRequest::NotANumber,
        Some(n) => match connect_preset(n) {
            None => ConnectRequest::Invalid(n),
            Some((name, url)) => {
                let key = if w.len() > 2 { w[2].clone() } else { String::new() };
                ConnectRequest::Preset(name, url, key)
            },
        },
    }
}

/// The models a connected provider is offered with, and its default: the
/// models it listed and the first of them; when it listed none, its
/// built-in fallbacks and the first of those (empty when there are none).
pub fn connect_models(fetched: Vec<String>, fallbacks: Vec<String>) -> (r: (Vec<String>, String))
    ensures
        fetched@.len() > 0 ==> strings_view(r.0@) == strings_view(fetched@) && r.1@ == fetched@[0]@,
        fetched@.len() == 0 ==> strings_view(r.0@) == strings_view(fallbacks@)
            && r.1@ == (if fallbacks@.len() > 0 { fallbacks@[0]@ } else { Seq::<char>::empty() }),
{
    if fetched.len() > 0 {
        let d = fetched[0].clone();
        (fetched, d)
    } else {
        let d = if fallbacks.len() > 0 { fallbacks[0].clone() } else { String::new() };
        (fallbacks, d)
    }
}

/// The model lines of the connect message.
pub open spec fn model_lines(models: Seq<Seq<char>>) -> Seq<char>
    decreases models.len(),
{
    if models.len() == 0 { Seq::empty() } else { model_lines(models.drop_last()) + "\n  - "@ + models.last() }
}

/// The message after connecting `name`: the models and the default one,
/// or a hint when no model list could be had.
pub open spec fn connected_message(name: Seq<char>, models: Seq<Seq<char>>, default_model: Seq<char>) -> Seq<char> {
    "Provider "@ + name + " 已连接。"@ + if models.len() > 0 {
        "\n可用模型:"@ + model_lines(models) + (if default_model.len() > 0 { "\n默认: "@ + default_model } else { Seq::empty() })
            + "\n输入 /models 可切换模型。"@
    } else {
        "\n未能获取模型列表，请确认 API Key 正确后使用 /models 选择模型。"@
    }
}

/// Executable `connected_message`.
pub fn connected_text(name: &str, models: &Vec<String>, default_model: &str) -> (r: String)
    ensures
        r@ == connected_message(name@, strings_view(models@), default_model@),
{
    let mut s = String::from_str("Provider ");
    s.append(name);
    s.append(" 已连接。");
    let ghost head = s@;
    if models.len() > 0 {
        s.append("\n可用模型:");
        let ghost base = s@;
        let mut i: usize = 0;
        assert(strings_view(models@).take(0) =~= Seq::<Seq<char>>::empty());
        while i < models.len()
            invariant
                i <= models@.len(),
                s@ == base + model_lines(strings_view(models@).take(i as int)),
            decreases models@.len() - i,
        {
            s.append("\n  - ");
            s.append(models[i].as_str());
            proof {
                let mv = strings_view(models@);
                assert(mv.take(i + 1).drop_last() =~= mv.take(i as int));
                assert(mv.take(i + 1).last() == models@[i as int]@);
            }
            i = i + 1;
        }
        assert(strings_view(models@).take(models@.len() as int) =~= strings_view(models@));
        let ghost listed = s@;
        if default_model.unicode_len() > 0 {
            s.append("\n默认: ");
            s.append(default_model);
        }
        let ghost with_default = s@;
        assert(with_default == listed + (if default_model@.len() > 0 { "\n默认: "@ + default_model@ } else { Seq::<char>::empty() }));
        s.append("\n输入 /models 可切换模型。");
    } else {
        s.append("\n未能获取模型列表，请确认 API Key 正确后使用 /models 选择模型。");
    }
    s
}

} // verus!

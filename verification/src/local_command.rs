//! The slash commands typed on the chat line that the interface handles
//! itself (rather than sending to the model), and which of them applies.

use vstd::prelude::*;
use crate::text::{trim, trim_chars, trim_str, starts_with, starts_with_chars, to_chars, chars_eq};

verus! {

/// A command handled by the interface itself.
#[derive(Debug, Clone, Copy, PartialEq, Eq, Structural)]
pub enum LocalCommand {
    /// `/answer <text>`: answers the waiting question.
    Answer,
    /// `/init`: writes the project guide.
    Init,
    /// `/init-deep`: writes the project guide from a deeper scan.
    InitDeep,
    /// `/loop <task>`: runs a task round after round.
    Loop,
    /// `/new`: starts a new session.
    New,
    /// `/sessions`: opens the session list.
    Sessions,
    /// `/clear`: clears the conversation.
    Clear,
    /// `/compress`: compresses the conversation.
    Compress,
    /// `/profile ...`
    Profile,
    /// `/plugin ...`
    Plugin,
    /// `/checkpoint ...`
    Checkpoint,
    /// `/mode ...`
    Mode,
    /// `/skills ...` (or `/skill`)
    Skills,
    /// `/mcps ...`
    Mcps,
    /// `/tools`
    Tools,
    /// `/status`
    Status,
    /// `/doctor`
    Doctor,
    /// `/prompt...`
    Prompt,
    /// `/diff...`
    Diff,
    /// `/hooks`
    Hooks,
    /// `/ide ...`
    Ide,
    /// `/config ...`
    Config,
    /// `/keybindings`
    Keybindings,
    /// `/outstyle ...`
    Outstyle,
    /// `/vim ...`
    Vim,
    /// `/memory ...`
    Memory,
    /// `/wiki ...`
    Wiki,
    /// `/insight`
    Insight,
    /// `/add-dir ...`
    AddDir,
    /// `/stats`
    Stats,
    /// `/copy last`
    CopyLast,
    /// `/fold last`
    FoldLast,
    /// `/expand last`
    ExpandLast,
    /// `/fold all`
    FoldAll,
    /// `/expand all`
    ExpandAll,
    /// `/theme...`
    Theme,
    /// `/todo ...`
    Todo,
    /// `/tasks ...`
    Tasks,
    /// `/update ...`
    Update,
    /// `/cancel`
    Cancel,
    /// `/help`
    Help,
    /// `/quit` or `/exit`
    Quit,
    /// `/connect`: opens the provider picker.
    ConnectSelect,
    /// `/connect <args>`: connects a provider from arguments.
    ConnectWith,
}

/// `t` is the command word `w`, alone or followed by arguments.
pub open spec fn is_word(t: Seq<char>, w: Seq<char>) -> bool {
    t == w || starts_with(t, w + " "@)
}

/// The command a trimmed chat line names; the first rule that applies wins.
pub open spec fn command_of(t: Seq<char>) -> Option<LocalCommand> {
    if starts_with(t, "/answer"@) {
        Some(LocalCommand::Answer)
    } else if t == "/init"@ {
        Some(LocalCommand::Init)
    } else if t == "/init-deep"@ {
        Some(LocalCommand::InitDeep)
    } else if is_word(t, "/loop"@) {
        Some(LocalCommand::Loop)
    } else if t == "/new"@ {
        Some(LocalCommand::New)
    } else if t == "/sessions"@ {
        Some(LocalCommand::Sessions)
    } else if t == "/clear"@ {
        Some(LocalCommand::Clear)
    } else if t == "/compress"@ {
        Some(LocalCommand::Compress)
    } else if is_word(t, "/profile"@) {
        Some(LocalCommand::Profile)
    } else if is_word(t, "/plugin"@) {
        Some(LocalCommand::Plugin)
    } else if is_word(t, "/checkpoint"@) {
        Some(LocalCommand::Checkpoint)
    } else if is_word(t, "/mode"@) {
        Some(LocalCommand::Mode)
    } else if is_word(t, "/skills"@) || t == "/skill"@ {
        Some(LocalCommand::Skills)
    } else if is_word(t, "/mcps"@) {
        Some(LocalCommand::Mcps)
    } else if t == "/tools"@ {
        Some(LocalCommand::Tools)
    } else if t == "/status"@ {
        Some(LocalCommand::Status)
    } else if t == "/doctor"@ {
        Some(LocalCommand::Doctor)
    } else if starts_with(t, "/prompt"@) {
        Some(LocalCommand::Prompt)
    } else if starts_with(t, "/diff"@) {
        Some(LocalCommand::Diff)
    } else if t == "/hooks"@ {
        Some(LocalCommand::Hooks)
    } else if is_word(t, "/ide"@) {
        Some(LocalCommand::Ide)
    } else if is_word(t, "/config"@) {
        Some(LocalCommand::Config)
    } else if t == "/keybindings"@ {
        Some(LocalCommand::Keybindings)
    } else if is_word(t, "/outstyle"@) {
        Some(LocalCommand::Outstyle)
    } else if is_word(t, "/vim"@) {
        Some(LocalCommand::Vim)
    } else if is_word(t, "/memory"@) {
        Some(LocalCommand::Memory)
    } else if is_word(t, "/wiki"@) {
        Some(LocalCommand::Wiki)
    } else if t == "/insight"@ {
        Some(LocalCommand::Insight)
    } else if is_word(t, "/add-dir"@) {
        Some(LocalCommand::AddDir)
    } else if t == "/stats"@ {
        Some(LocalCommand::Stats)
    } else if t == "/copy last"@ {
        Some(LocalCommand::CopyLast)
    } else if t == "/fold last"@ {
        Some(LocalCommand::FoldLast)
    } else if t == "/expand last"@ {
        Some(LocalCommand::ExpandLast)
    } else if t == "/fold all"@ {
        Some(LocalCommand::FoldAll)
    } else if t == "/expand all"@ {
        Some(LocalCommand::ExpandAll)
    } else if starts_with(t, "/theme"@) {
        Some(LocalCommand::Theme)
    } else if is_word(t, "/todo"@) {
        Some(LocalCommand::Todo)
    } else if is_word(t, "/tasks"@) {
        Some(LocalCommand::Tasks)
    } else if is_word(t, "/update"@) {
        Some(LocalCommand::Update)
    } else if t == "/cancel"@ {
        Some(LocalCommand::Cancel)
    } else if t == "/help"@ {
        Some(LocalCommand::Help)
    } else if t == "/quit"@ || t == "/exit"@ {
        Some(LocalCommand::Quit)
    } else if t == "/connect"@ {
        Some(LocalCommand::ConnectSelect)
    } else if starts_with(t, "/connect "@) {
        Some(LocalCommand::ConnectWith)
    } else {
        None
    }
}

/// The command a chat line names, read with the surrounding blanks ignored.
pub open spec fn local_command_of(input: Seq<char>) -> Option<LocalCommand> {
    command_of(trim(input))
}

fn eq_lit(t: &Vec<char>, lit: &str) -> (r: bool)
    ensures
        r == (t@ == lit@),
{
    chars_eq(t.as_slice(), to_chars(lit).as_slice())
}

fn starts_lit(t: &Vec<char>, lit: &str) -> (r: bool)
    ensures
        r == starts_with(t@, lit@),
{
    starts_with_chars(t.as_slice(), to_chars(lit).as_slice())
}

fn word_lit(t: &Vec<char>, lit: &str) -> (r: bool)
    ensures
        r == is_word(t@, lit@),
{
    let mut w = to_chars(lit);
    w.push(' ');
    proof {
        reveal_strlit(" ");
        assert(w@ =~= lit@ + " "@);
    }
    eq_lit(t, lit) || starts_with_chars(t.as_slice(), w.as_slice())
}

/// Executable `local_command_of`.
#[verifier::rlimit(40)]
pub fn classify_local_command(input: &str) -> (r: Option<LocalCommand>)
    ensures
        r == local_command_of(input@),
{
    let t = trim_chars(to_chars(input).as_slice());
    if starts_lit(&t, "/answer") {
        Some(LocalCommand::Answer)
    } else if eq_lit(&t, "/init") {
        Some(LocalCommand::Init)
    } else if eq_lit(&t, "/init-deep") {
        Some(LocalCommand::InitDeep)
    } else if word_lit(&t, "/loop") {
        Some(LocalCommand::Loop)
    } else if eq_lit(&t, "/new") {
        Some(LocalCommand::New)
    } else if eq_lit(&t, "/sessions") {
        Some(LocalCommand::Sessions)
    } else if eq_lit(&t, "/clear") {
        Some(LocalCommand::Clear)
    } else if eq_lit(&t, "/compress") {
        Some(LocalCommand::Compress)
    } else if word_lit(&t, "/profile") {
        Some(LocalCommand::Profile)
    } else if word_lit(&t, "/plugin") {
        Some(LocalCommand::Plugin)
    } else if word_lit(&t, "/checkpoint") {
        Some(LocalCommand::Checkpoint)
    } else if word_lit(&t, "/mode") {
        Some(LocalCommand::Mode)
    } else if word_lit(&t, "/skills") || eq_lit(&t, "/skill") {
        Some(LocalCommand::Skills)
    } else if word_lit(&t, "/mcps") {
        Some(LocalCommand::Mcps)
    } else if eq_lit(&t, "/tools") {
        Some(LocalCommand::Tools)
    } else if eq_lit(&t, "/status") {
        Some(LocalCommand::Status)
    } else if eq_lit(&t, "/doctor") {
        Some(LocalCommand::Doctor)
    } else if starts_lit(&t, "/prompt") {
        Some(LocalCommand::Prompt)
    } else if starts_lit(&t, "/diff") {
        Some(LocalCommand::Diff)
    } else if eq_lit(&t, "/hooks") {
        Some(LocalCommand::Hooks)
    } else if word_lit(&t, "/ide") {
        Some(LocalCommand::Ide)
    } else if word_lit(&t, "/config") {
        Some(LocalCommand::Config)
    } else if eq_lit(&t, "/keybindings") {
        Some(LocalCommand::Keybindings)
    } else if word_lit(&t, "/outstyle") {
        Some(LocalCommand::Outstyle)
    } else if word_lit(&t, "/vim") {
        Some(LocalCommand::Vim)
    } else if word_lit(&t, "/memory") {
        Some(LocalCommand::Memory)
    } else if word_lit(&t, "/wiki") {
        Some(LocalCommand::Wiki)
    } else if eq_lit(&t, "/insight") {
        Some(LocalCommand::Insight)
    } else if word_lit(&t, "/add-dir") {
        Some(LocalCommand::AddDir)
    } else if eq_lit(&t, "/stats") {
        Some(LocalCommand::Stats)
    } else if eq_lit(&t, "/copy last") {
        Some(LocalCommand::CopyLast)
    } else if eq_lit(&t, "/fold last") {
        Some(LocalCommand::FoldLast)
    } else if eq_lit(&t, "/expand last") {
        Some(LocalCommand::ExpandLast)
    } else if eq_lit(&t, "/fold all") {
        Some(LocalCommand::FoldAll)
    } else if eq_lit(&t, "/expand all") {
        Some(LocalCommand::ExpandAll)
    } else if starts_lit(&t, "/theme") {
        Some(LocalCommand::Theme)
    } else if word_lit(&t, "/todo") {
        Some(LocalCommand::Todo)
    } else if word_lit(&t, "/tasks") {
        Some(LocalCommand::Tasks)
    } else if word_lit(&t, "/update") {
        Some(LocalCommand::Update)
    } else if eq_lit(&t, "/cancel") {
        Some(LocalCommand::Cancel)
    } else if eq_lit(&t, "/help") {
        Some(LocalCommand::Help)
    } else if eq_lit(&t, "/quit") || eq_lit(&t, "/exit") {
        Some(LocalCommand::Quit)
    } else if eq_lit(&t, "/connect") {
        Some(LocalCommand::ConnectSelect)
    } else if starts_lit(&t, "/connect ") {
        Some(LocalCommand::ConnectWith)
    } else {
        None
    }
}

impl LocalCommand {
    /// Whether the chat line is cleared once the command ran; `/connect`
    /// with arguments leaves it to the connection step.
    pub fn clears_input(self) -> (r: bool)
        ensures
            r == (self != LocalCommand::ConnectWith),
    {
        !matches!(self, LocalCommand::ConnectWith)
    }
}

/// The text after `/answer`, trimmed.
pub open spec fn answer_text(input: Seq<char>) -> Seq<char> {
    let t = trim(input);
    if starts_with(t, "/answer"@) {
        trim(t.skip(7))
    } else {
        Seq::empty()
    }
}

/// Executable `answer_text`.
pub fn answer_argument(input: &str) -> (r: String)
    ensures
        r@ == answer_text(input@),
{
    let t = trim_chars(to_chars(input).as_slice());
    if starts_lit(&t, "/answer") {
        proof {
            reveal_strlit("/answer");
        }
        let rest = crate::text::slice_chars(t.as_slice(), 7, t.len());
        assert(rest@ =~= t@.skip(7));
        let a = trim_chars(rest.as_slice());
        crate::text::from_chars(a.as_slice())
    } else {
        String::new()
    }
}

/// What `/answer` does.
#[derive(Debug, Clone, Copy, PartialEq, Eq, Structural)]
pub enum AnswerReply {
    /// No question is waiting.
    NoPendingQuestion,
    /// The answer is empty; the usage is shown.
    Usage,
    /// The waiting task resumes with the answer.
    Resume,
}

/// `/answer` needs a waiting question and a non-empty answer.
pub fn answer_reply(has_pending_question: bool, answer: &str) -> (r: AnswerReply)
    ensures
        r == (if !has_pending_question {
            AnswerReply::NoPendingQuestion
        } else if answer@.len() == 0 {
            AnswerReply::Usage
        } else {
            AnswerReply::Resume
        }),
{
    if !has_pending_question {
        AnswerReply::NoPendingQuestion
    } else if answer.unicode_len() == 0 {
        AnswerReply::Usage
    } else {
        AnswerReply::Resume
    }
}

/// The notice shown for an `/answer` that does not resume the task.
pub fn answer_notice(reply: AnswerReply) -> (r: Option<&'static str>)
    ensures
        match reply {
            AnswerReply::NoPendingQuestion => r is Some && r->0@ == "当前没有等待回答的任务。"@,
            AnswerReply::Usage => r is Some && r->0@ == "用法: /answer <你的回答>"@,
            AnswerReply::Resume => r is None,
        },
{
    match reply {
        AnswerReply::NoPendingQuestion => Some("当前没有等待回答的任务。"),
        AnswerReply::Usage => Some("用法: /answer <你的回答>"),
        AnswerReply::Resume => None,
    }
}

} // verus!

//! What a key press does in the terminal interface, decided from the input
//! mode and a few facts about the input line.  The interface applies the
//! decision to its state.

use vstd::prelude::*;
use crate::input::InputMode;

verus! {

/// A key, as far as the interface tells keys apart.
#[derive(Debug, Clone, Copy, PartialEq, Eq, Structural)]
pub enum Key {
    Char(char),
    Up,
    Down,
    Left,
    Right,
    PageUp,
    PageDown,
    Enter,
    Esc,
    Tab,
    Backspace,
    Other,
}

/// A key press with the modifiers that matter.
#[derive(Debug, Clone, Copy, PartialEq, Eq, Structural)]
pub struct KeyPress {
    pub key: Key,
    pub ctrl: bool,
    pub alt: bool,
}

/// The pick lists whose highlighted row the arrow keys move.
#[derive(Debug, Clone, Copy, PartialEq, Eq, Structural)]
pub enum Picker {
    Provider,
    Model,
    Theme,
    Connect,
    Level1,
    Sub,
    Skills,
    Mcp,
    Checkpoint,
    Tasks,
    Mode,
    Session,
    Config,
    ConfigEnum,
}

/// Moving around: pick lists, the question dialog, input history, scrolling.
#[derive(Debug, Clone, Copy, PartialEq, Eq, Structural)]
pub enum NavAction {
    RenameProvider,
    RemoveProvider,
    CancelMode,
    /// The key is taken and nothing happens.
    Nothing,
    Up(Picker),
    Down(Picker),
    ConfirmLevel1,
    ConfirmSub,
    PreviousQuestion,
    NextQuestion,
    PreviousOption,
    NextOption,
    ToggleOption,
    /// History back when the cursor is on the first visible input line,
    /// else scroll the input up.
    HistoryUp,
    /// History forward when the cursor is on the last visible input line,
    /// else scroll the input down.
    HistoryDown,
    /// Five lines up.
    PageUp,
    /// Five lines down.
    PageDown,
    ScrollUp,
    ScrollDown,
}

/// The navigation a key does in a mode, if it is a navigation key there;
/// the first rule that applies wins.
pub open spec fn navigation(mode: InputMode, key: Key, vim: bool, input_empty: bool) -> Option<NavAction> {
    if key == Key::Char('r') && mode == InputMode::ProviderSelect {
        Some(NavAction::RenameProvider)
    } else if key == Key::Char('d') && mode == InputMode::ProviderSelect {
        Some(NavAction::RemoveProvider)
    } else if key == Key::Char('h') && vim {
        Some(if mode != InputMode::Chat { NavAction::CancelMode } else { NavAction::Nothing })
    } else if key == Key::Char('j') && vim && mode == InputMode::ProviderSelect {
        Some(NavAction::Down(Picker::Provider))
    } else if key == Key::Char('k') && vim && mode == InputMode::ProviderSelect {
        Some(NavAction::Up(Picker::Provider))
    } else if key == Key::Up && mode == InputMode::ProviderSelect {
        Some(NavAction::Up(Picker::Provider))
    } else if key == Key::Down && mode == InputMode::ProviderSelect {
        Some(NavAction::Down(Picker::Provider))
    } else if key == Key::Up && mode == InputMode::ModelSelect {
        Some(NavAction::Up(Picker::Model))
    } else if key == Key::Down && mode == InputMode::ModelSelect {
        Some(NavAction::Down(Picker::Model))
    } else if key == Key::Up && mode == InputMode::ThemeSelect {
        Some(NavAction::Up(Picker::Theme))
    } else if key == Key::Down && mode == InputMode::ThemeSelect {
        Some(NavAction::Down(Picker::Theme))
    } else if key == Key::Up && mode == InputMode::ConnectSelect {
        Some(NavAction::Up(Picker::Connect))
    } else if key == Key::Down && mode == InputMode::ConnectSelect {
        Some(NavAction::Down(Picker::Connect))
    } else if key == Key::Char('k') && vim && mode == InputMode::CommandLevel1 {
        Some(NavAction::Up(Picker::Level1))
    } else if key == Key::Char('j') && vim && mode == InputMode::CommandLevel1 {
        Some(NavAction::Down(Picker::Level1))
    } else if key == Key::Char('l') && vim && mode == InputMode::CommandLevel1 {
        Some(NavAction::ConfirmLevel1)
    } else if key == Key::Up && mode == InputMode::CommandLevel1 {
        Some(NavAction::Up(Picker::Level1))
    } else if key == Key::Down && mode == InputMode::CommandLevel1 {
        Some(NavAction::Down(Picker::Level1))
    } else if key == Key::Up && mode == InputMode::CommandLevel2 {
        Some(NavAction::Up(Picker::Sub))
    } else if key == Key::Down && mode == InputMode::CommandLevel2 {
        Some(NavAction::Down(Picker::Sub))
    } else if key == Key::Char('k') && vim && mode == InputMode::CommandLevel2 {
        Some(NavAction::Up(Picker::Sub))
    } else if key == Key::Char('j') && vim && mode == InputMode::CommandLevel2 {
        Some(NavAction::Down(Picker::Sub))
    } else if key == Key::Char('l') && vim && mode == InputMode::CommandLevel2 {
        Some(NavAction::ConfirmSub)
    } else if key == Key::Up && mode == InputMode::SkillsSelect {
        Some(NavAction::Up(Picker::Skills))
    } else if key == Key::Down && mode == InputMode::SkillsSelect {
        Some(NavAction::Down(Picker::Skills))
    } else if key == Key::Up && mode == InputMode::McpSelect {
        Some(NavAction::Up(Picker::Mcp))
    } else if key == Key::Down && mode == InputMode::McpSelect {
        Some(NavAction::Down(Picker::Mcp))
    } else if key == Key::Up && mode == InputMode::CheckpointSelect {
        Some(NavAction::Up(Picker::Checkpoint))
    } else if key == Key::Down && mode == InputMode::CheckpointSelect {
        Some(NavAction::Down(Picker::Checkpoint))
    } else if key == Key::Up && mode == InputMode::TasksSelect {
        Some(NavAction::Up(Picker::Tasks))
    } else if key == Key::Down && mode == InputMode::TasksSelect {
        Some(NavAction::Down(Picker::Tasks))
    } else if key == Key::Up && mode == InputMode::ModeSelect {
        Some(NavAction::Up(Picker::Mode))
    } else if key == Key::Down && mode == InputMode::ModeSelect {
        Some(NavAction::Down(Picker::Mode))
    } else if key == Key::Up && mode == InputMode::SessionSelect {
        Some(NavAction::Up(Picker::Session))
    } else if key == Key::Down && mode == InputMode::SessionSelect {
        Some(NavAction::Down(Picker::Session))
    } else if key == Key::Up && mode == InputMode::ConfigSelect {
        Some(NavAction::Up(Picker::Config))
    } else if key == Key::Down && mode == InputMode::ConfigSelect {
        Some(NavAction::Down(Picker::Config))
    } else if key == Key::Up && mode == InputMode::ConfigEnumSelect {
        Some(NavAction::Up(Picker::ConfigEnum))
    } else if key == Key::Down && mode == InputMode::ConfigEnumSelect {
        Some(NavAction::Down(Picker::ConfigEnum))
    } else if key == Key::Left && mode == InputMode::PendingQuestion {
        Some(NavAction::PreviousQuestion)
    } else if key == Key::Right && mode == InputMode::PendingQuestion {
        Some(NavAction::NextQuestion)
    } else if key == Key::Up && mode == InputMode::PendingQuestion {
        Some(NavAction::PreviousOption)
    } else if key == Key::Down && mode == InputMode::PendingQuestion {
        Some(NavAction::NextOption)
    } else if key == Key::Char(' ') && mode == InputMode::PendingQuestion {
        Some(NavAction::ToggleOption)
    } else if key == Key::Char('k') && vim && mode == InputMode::Chat {
        Some(NavAction::HistoryUp)
    } else if key == Key::Char('j') && vim && mode == InputMode::Chat {
        Some(NavAction::HistoryDown)
    } else if key == Key::Up && mode == InputMode::Chat && !input_empty {
        Some(NavAction::HistoryUp)
    } else if key == Key::Down && mode == InputMode::Chat && !input_empty {
        Some(NavAction::HistoryDown)
    } else if key == Key::PageUp {
        Some(NavAction::PageUp)
    } else if key == Key::PageDown {
        Some(NavAction::PageDown)
    } else if key == Key::Up {
        None
    } else if key == Key::Down {
        None
    } else if key == Key::Char('k') && vim {
        Some(NavAction::ScrollUp)
    } else if key == Key::Char('j') && vim {
        Some(NavAction::ScrollDown)
    } else {
        None
    }
}

/// Executable `navigation`.
#[verifier::rlimit(40)]
pub fn navigation_action(mode: InputMode, key: Key, vim: bool, input_empty: bool) -> (r: Option<NavAction>)
    ensures
        r == navigation(mode, key, vim, input_empty),
{
    if key == Key::Char('r') && mode == InputMode::ProviderSelect {
        Some(NavAction::RenameProvider)
    } else if key == Key::Char('d') && mode == InputMode::ProviderSelect {
        Some(NavAction::RemoveProvider)
    } else if key == Key::Char('h') && vim {
        Some(if mode != InputMode::Chat { NavAction::CancelMode } else { NavAction::Nothing })
    } else if key == Key::Char('j') && vim && mode == InputMode::ProviderSelect {
        Some(NavAction::Down(Picker::Provider))
    } else if key == Key::Char('k') && vim && mode == InputMode::ProviderSelect {
        Some(NavAction::Up(Picker::Provider))
    } else if key == Key::Up && mode == InputMode::ProviderSelect {
        Some(NavAction::Up(Picker::Provider))
    } else if key == Key::Down && mode == InputMode::ProviderSelect {
        Some(NavAction::Down(Picker::Provider))
    } else if key == Key::Up && mode == InputMode::ModelSelect {
        Some(NavAction::Up(Picker::Model))
    } else if key == Key::Down && mode == InputMode::ModelSelect {
        Some(NavAction::Down(Picker::Model))
    } else if key == Key::Up && mode == InputMode::ThemeSelect {
        Some(NavAction::Up(Picker::Theme))
    } else if key == Key::Down && mode == InputMode::ThemeSelect {
        Some(NavAction::Down(Picker::Theme))
    } else if key == Key::Up && mode == InputMode::ConnectSelect {
        Some(NavAction::Up(Picker::Connect))
    } else if key == Key::Down && mode == InputMode::ConnectSelect {
        Some(NavAction::Down(Picker::Connect))
    } else if key == Key::Char('k') && vim && mode == InputMode::CommandLevel1 {
        Some(NavAction::Up(Picker::Level1))
    } else if key == Key::Char('j') && vim && mode == InputMode::CommandLevel1 {
        Some(NavAction::Down(Picker::Level1))
    } else if key == Key::Char('l') && vim && mode == InputMode::CommandLevel1 {
        Some(NavAction::ConfirmLevel1)
    } else if key == Key::Up && mode == InputMode::CommandLevel1 {
        Some(NavAction::Up(Picker::Level1))
    } else if key == Key::Down && mode == InputMode::CommandLevel1 {
        Some(NavAction::Down(Picker::Level1))
    } else if key == Key::Up && mode == InputMode::CommandLevel2 {
        Some(NavAction::Up(Picker::Sub))
    } else if key == Key::Down && mode == InputMode::CommandLevel2 {
        Some(NavAction::Down(Picker::Sub))
    } else if key == Key::Char('k') && vim && mode == InputMode::CommandLevel2 {
        Some(NavAction::Up(Picker::Sub))
    } else if key == Key::Char('j') && vim && mode == InputMode::CommandLevel2 {
        Some(NavAction::Down(Picker::Sub))
    } else if key == Key::Char('l') && vim && mode == InputMode::CommandLevel2 {
        Some(NavAction::ConfirmSub)
    } else if key == Key::Up && mode == InputMode::SkillsSelect {
        Some(NavAction::Up(Picker::Skills))
    } else if key == Key::Down && mode == InputMode::SkillsSelect {
        Some(NavAction::Down(Picker::Skills))
    } else if key == Key::Up && mode == InputMode::McpSelect {
        Some(NavAction::Up(Picker::Mcp))
    } else if key == Key::Down && mode == InputMode::McpSelect {
        Some(NavAction::Down(Picker::Mcp))
    } else if key == Key::Up && mode == InputMode::CheckpointSelect {
        Some(NavAction::Up(Picker::Checkpoint))
    } else if key == Key::Down && mode == InputMode::CheckpointSelect {
        Some(NavAction::Down(Picker::Checkpoint))
    } else if key == Key::Up && mode == InputMode::TasksSelect {
        Some(NavAction::Up(Picker::Tasks))
    } else if key == Key::Down && mode == InputMode::TasksSelect {
        Some(NavAction::Down(Picker::Tasks))
    } else if key == Key::Up && mode == InputMode::ModeSelect {
        Some(NavAction::Up(Picker::Mode))
    } else if key == Key::Down && mode == InputMode::ModeSelect {
        Some(NavAction::Down(Picker::Mode))
    } else if key == Key::Up && mode == InputMode::SessionSelect {
        Some(NavAction::Up(Picker::Session))
    } else if key == Key::Down && mode == InputMode::SessionSelect {
        Some(NavAction::Down(Picker::Session))
    } else if key == Key::Up && mode == InputMode::ConfigSelect {
        Some(NavAction::Up(Picker::Config))
    } else if key == Key::Down && mode == InputMode::ConfigSelect {
        Some(NavAction::Down(Picker::Config))
    } else if key == Key::Up && mode == InputMode::ConfigEnumSelect {
        Some(NavAction::Up(Picker::ConfigEnum))
    } else if key == Key::Down && mode == InputMode::ConfigEnumSelect {
        Some(NavAction::Down(Picker::ConfigEnum))
    } else if key == Key::Left && mode == InputMode::PendingQuestion {
        Some(NavAction::PreviousQuestion)
    } else if key == Key::Right && mode == InputMode::PendingQuestion {
        Some(NavAction::NextQuestion)
    } else if key == Key::Up && mode == InputMode::PendingQuestion {
        Some(NavAction::PreviousOption)
    } else if key == Key::Down && mode == InputMode::PendingQuestion {
        Some(NavAction::NextOption)
    } else if key == Key::Char(' ') && mode == InputMode::PendingQuestion {
        Some(NavAction::ToggleOption)
    } else if key == Key::Char('k') && vim && mode == InputMode::Chat {
        Some(NavAction::HistoryUp)
    } else if key == Key::Char('j') && vim && mode == InputMode::Chat {
        Some(NavAction::HistoryDown)
    } else if key == Key::Up && mode == InputMode::Chat && !input_empty {
        Some(NavAction::HistoryUp)
    } else if key == Key::Down && mode == InputMode::Chat && !input_empty {
        Some(NavAction::HistoryDown)
    } else if key == Key::PageUp {
        Some(NavAction::PageUp)
    } else if key == Key::PageDown {
        Some(NavAction::PageDown)
    } else if key == Key::Up {
        None
    } else if key == Key::Down {
        None
    } else if key == Key::Char('k') && vim {
        Some(NavAction::ScrollUp)
    } else if key == Key::Char('j') && vim {
        Some(NavAction::ScrollDown)
    } else {
        None
    }
}

/// The highlighted row one up (it stays on the first row).
pub fn select_up(index: usize) -> (r: usize)
    ensures
        r == (if index == 0 { 0 } else { index - 1 }),
{
    if index == 0 { 0 } else { index - 1 }
}

/// The highlighted row one down (it stays on the last row).
pub fn select_down(index: usize, len: usize) -> (r: usize)
    ensures
        r == (if index + 1 < len { index + 1 } else { index as int }),
{
    if index < len && index + 1 < len { index + 1 } else { index }
}

/// Esc.
#[derive(Debug, Clone, Copy, PartialEq, Eq, Structural)]
pub enum EscAction {
    /// Cancels the running task.
    CancelTask,
    CancelOptimization,
    CancelTodo,
    /// Back to the chat line; the question keeps waiting.
    LeaveQuestion,
    /// From a sub-command list back to the command list.
    BackToLevel1,
    /// Closes the command list.
    LeaveLevel1,
    CancelMode,
}

pub open spec fn escape(mode: InputMode, processing: bool) -> EscAction {
    if processing && mode == InputMode::Chat {
        EscAction::CancelTask
    } else if mode == InputMode::InputOptimizePreview {
        EscAction::CancelOptimization
    } else if mode == InputMode::TodoConfirm {
        EscAction::CancelTodo
    } else if mode == InputMode::PendingQuestion {
        EscAction::LeaveQuestion
    } else if mode == InputMode::CommandLevel2 {
        EscAction::BackToLevel1
    } else if mode == InputMode::CommandLevel1 {
        EscAction::LeaveLevel1
    } else {
        EscAction::CancelMode
    }
}

/// Executable `escape`.
pub fn escape_action(mode: InputMode, processing: bool) -> (r: EscAction)
    ensures
        r == escape(mode, processing),
{
    if processing && mode == InputMode::Chat {
        EscAction::CancelTask
    } else if mode == InputMode::InputOptimizePreview {
        EscAction::CancelOptimization
    } else if mode == InputMode::TodoConfirm {
        EscAction::CancelTodo
    } else if mode == InputMode::PendingQuestion {
        EscAction::LeaveQuestion
    } else if mode == InputMode::CommandLevel2 {
        EscAction::BackToLevel1
    } else if mode == InputMode::CommandLevel1 {
        EscAction::LeaveLevel1
    } else {
        EscAction::CancelMode
    }
}

/// Enter.
#[derive(Debug, Clone, Copy, PartialEq, Eq, Structural)]
pub enum EnterAction {
    /// Resumes the waiting question with an empty answer.
    ResumeQuestion,
    ConfirmConnect,
    ConfirmTheme,
    FinishConnect,
    ConfirmLevel1,
    ConfirmSub,
    ConfirmSkills,
    ConfirmMcp,
    ConfirmTask,
    ConfirmCheckpoint,
    ConfirmMode,
    ConfirmSession,
    ConfirmConfig,
    ConfirmConfigEnum,
    FinishConfigNumber,
    FinishTaskInput,
    ApplyOptimization,
    ConfirmTodo,
    SubmitQuestion,
    SendMessage,
}

pub open spec fn enter(mode: InputMode, resume_question: bool) -> EnterAction {
    if resume_question {
        EnterAction::ResumeQuestion
    } else {
        match mode {
            InputMode::ConnectSelect => EnterAction::ConfirmConnect,
            InputMode::ThemeSelect => EnterAction::ConfirmTheme,
            InputMode::ConnectApiKey => EnterAction::FinishConnect,
            InputMode::CommandLevel1 => EnterAction::ConfirmLevel1,
            InputMode::CommandLevel2 => EnterAction::ConfirmSub,
            InputMode::SkillsSelect => EnterAction::ConfirmSkills,
            InputMode::McpSelect => EnterAction::ConfirmMcp,
            InputMode::TasksSelect => EnterAction::ConfirmTask,
            InputMode::CheckpointSelect => EnterAction::ConfirmCheckpoint,
            InputMode::ModeSelect => EnterAction::ConfirmMode,
            InputMode::SessionSelect => EnterAction::ConfirmSession,
            InputMode::ConfigSelect => EnterAction::ConfirmConfig,
            InputMode::ConfigEnumSelect => EnterAction::ConfirmConfigEnum,
            InputMode::ConfigNumberInput => EnterAction::FinishConfigNumber,
            InputMode::TaskInput => EnterAction::FinishTaskInput,
            InputMode::InputOptimizePreview => EnterAction::ApplyOptimization,
            InputMode::TodoConfirm => EnterAction::ConfirmTodo,
            InputMode::PendingQuestion => EnterAction::SubmitQuestion,
            _ => EnterAction::SendMessage,
        }
    }
}

/// Executable `enter`; `resume_question` is whether Enter on this line
/// resumes a waiting question.
pub fn enter_action(mode: InputMode, resume_question: bool) -> (r: EnterAction)
    ensures
        r == enter(mode, resume_question),
{
    if resume_question {
        EnterAction::ResumeQuestion
    } else {
        match mode {
            InputMode::ConnectSelect => EnterAction::ConfirmConnect,
            InputMode::ThemeSelect => EnterAction::ConfirmTheme,
            InputMode::ConnectApiKey => EnterAction::FinishConnect,
            InputMode::CommandLevel1 => EnterAction::ConfirmLevel1,
            InputMode::CommandLevel2 => EnterAction::ConfirmSub,
            InputMode::SkillsSelect => EnterAction::ConfirmSkills,
            InputMode::McpSelect => EnterAction::ConfirmMcp,
            InputMode::TasksSelect => EnterAction::ConfirmTask,
            InputMode::CheckpointSelect => EnterAction::ConfirmCheckpoint,
            InputMode::ModeSelect => EnterAction::ConfirmMode,
            InputMode::SessionSelect => EnterAction::ConfirmSession,
            InputMode::ConfigSelect => EnterAction::ConfirmConfig,
            InputMode::ConfigEnumSelect => EnterAction::ConfirmConfigEnum,
            InputMode::ConfigNumberInput => EnterAction::FinishConfigNumber,
            InputMode::TaskInput => EnterAction::FinishTaskInput,
            InputMode::InputOptimizePreview => EnterAction::ApplyOptimization,
            InputMode::TodoConfirm => EnterAction::ConfirmTodo,
            InputMode::PendingQuestion => EnterAction::SubmitQuestion,
            _ => EnterAction::SendMessage,
        }
    }
}

/// Tab.
#[derive(Debug, Clone, Copy, PartialEq, Eq, Structural)]
pub enum TabAction {
    /// Completes the highlighted command.
    CompleteCommand,
    /// Switches the scope of the configuration list.
    ToggleConfigScope,
    /// Completes the highlighted sub-command.
    CompleteSubCommand,
    Nothing,
}

pub open spec fn tab(mode: InputMode) -> TabAction {
    if mode == InputMode::CommandLevel1 {
        TabAction::CompleteCommand
    } else if mode == InputMode::ConfigSelect {
        TabAction::ToggleConfigScope
    } else if mode == InputMode::CommandLevel2 {
        TabAction::CompleteSubCommand
    } else {
        TabAction::Nothing
    }
}

/// Executable `tab`.
pub fn tab_action(mode: InputMode) -> (r: TabAction)
    ensures
        r == tab(mode),
{
    if mode == InputMode::CommandLevel1 {
        TabAction::CompleteCommand
    } else if mode == InputMode::ConfigSelect {
        TabAction::ToggleConfigScope
    } else if mode == InputMode::CommandLevel2 {
        TabAction::CompleteSubCommand
    } else {
        TabAction::Nothing
    }
}

/// Shortcuts on the chat line.
#[derive(Debug, Clone, Copy, PartialEq, Eq, Structural)]
pub enum ChatAction {
    /// Ctrl+A: has the model rewrite the input.
    OptimizeInput,
    /// Ctrl+S: folds or unfolds every thinking block.
    ToggleThinkingFolds,
    /// Ctrl+T: turns thinking on or off.
    ToggleThinking,
    /// Alt+M: the next execution mode.
    CycleMode,
    /// Ctrl+Z: takes back the last rewrite.
    UndoOptimization,
    /// `/` on an empty line: opens the command list.
    OpenCommands,
    /// The key is taken and nothing happens.
    Nothing,
}

pub open spec fn chat_control(
    mode: InputMode,
    key: KeyPress,
    input_empty: bool,
    input_blank: bool,
    processing: bool,
) -> Option<ChatAction> {
    let chat = mode == InputMode::Chat;
    if key.key == Key::Char('a') && chat && key.ctrl {
        Some(if !input_blank { ChatAction::OptimizeInput } else { ChatAction::Nothing })
    } else if key.key == Key::Char('s') && chat && key.ctrl {
        Some(ChatAction::ToggleThinkingFolds)
    } else if key.key == Key::Char('t') && chat && key.ctrl {
        Some(ChatAction::ToggleThinking)
    } else if key.key == Key::Char('m') && chat && key.alt {
        Some(ChatAction::CycleMode)
    } else if key.key == Key::Char('z') && chat && key.ctrl {
        Some(if !processing { ChatAction::UndoOptimization } else { ChatAction::Nothing })
    } else if key.key == Key::Char('/') && chat && input_empty {
        Some(ChatAction::OpenCommands)
    } else {
        None
    }
}

/// Executable `chat_control`; `input_blank` is whether the trimmed input is
/// empty.
pub fn chat_control_action(
    mode: InputMode,
    key: KeyPress,
    input_empty: bool,
    input_blank: bool,
    processing: bool,
) -> (r: Option<ChatAction>)
    ensures
        r == chat_control(mode, key, input_empty, input_blank, processing),
{
    let chat = mode == InputMode::Chat;
    if key.key == Key::Char('a') && chat && key.ctrl {
        Some(if !input_blank { ChatAction::OptimizeInput } else { ChatAction::Nothing })
    } else if key.key == Key::Char('s') && chat && key.ctrl {
        Some(ChatAction::ToggleThinkingFolds)
    } else if key.key == Key::Char('t') && chat && key.ctrl {
        Some(ChatAction::ToggleThinking)
    } else if key.key == Key::Char('m') && chat && key.alt {
        Some(ChatAction::CycleMode)
    } else if key.key == Key::Char('z') && chat && key.ctrl {
        Some(if !processing { ChatAction::UndoOptimization } else { ChatAction::Nothing })
    } else if key.key == Key::Char('/') && chat && input_empty {
        Some(ChatAction::OpenCommands)
    } else {
        None
    }
}

/// The pick lists, where Backspace does nothing.
pub open spec fn is_pick_list(mode: InputMode) -> bool {
    match mode {
        InputMode::ProviderSelect | InputMode::ModelSelect | InputMode::ThemeSelect
        | InputMode::ConnectSelect | InputMode::SkillsSelect | InputMode::McpSelect
        | InputMode::TasksSelect | InputMode::CheckpointSelect | InputMode::ConfigSelect
        | InputMode::ConfigEnumSelect => true,
        _ => false,
    }
}

/// Backspace.
#[derive(Debug, Clone, Copy, PartialEq, Eq, Structural)]
pub enum BackspaceAction {
    /// Deletes the last character of a command being typed.
    EditCommand,
    /// Deletes the last character of a sub-command being typed.
    EditSubCommand,
    /// Deletes the last character.
    Delete,
}

pub open spec fn backspace(mode: InputMode) -> Option<BackspaceAction> {
    if is_pick_list(mode) {
        None
    } else if mode == InputMode::CommandLevel1 {
        Some(BackspaceAction::EditCommand)
    } else if mode == InputMode::CommandLevel2 {
        Some(BackspaceAction::EditSubCommand)
    } else {
        Some(BackspaceAction::Delete)
    }
}

/// Executable `backspace`.
pub fn backspace_action(mode: InputMode) -> (r: Option<BackspaceAction>)
    ensures
        r == backspace(mode),
{
    let pick = match mode {
        InputMode::ProviderSelect | InputMode::ModelSelect | InputMode::ThemeSelect
        | InputMode::ConnectSelect | InputMode::SkillsSelect | InputMode::McpSelect
        | InputMode::TasksSelect | InputMode::CheckpointSelect | InputMode::ConfigSelect
        | InputMode::ConfigEnumSelect => true,
        _ => false,
    };
    if pick {
        None
    } else if mode == InputMode::CommandLevel1 {
        Some(BackspaceAction::EditCommand)
    } else if mode == InputMode::CommandLevel2 {
        Some(BackspaceAction::EditSubCommand)
    } else {
        Some(BackspaceAction::Delete)
    }
}

/// Typing a character.
#[derive(Debug, Clone, Copy, PartialEq, Eq, Structural)]
pub enum TypeAction {
    /// Appends and filters the command list.
    CommandChar(char),
    /// Appends and filters the sub-command list.
    SubCommandChar(char),
    /// Appends.
    Char(char),
}

pub open spec fn typed(mode: InputMode, key: KeyPress) -> Option<TypeAction> {
    match key.key {
        Key::Char(c) => if key.ctrl {
            None
        } else if mode == InputMode::CommandLevel1 {
            Some(TypeAction::CommandChar(c))
        } else if mode == InputMode::CommandLevel2 {
            Some(TypeAction::SubCommandChar(c))
        } else {
            Some(TypeAction::Char(c))
        },
        _ => None,
    }
}

/// Executable `typed`.
pub fn type_action(mode: InputMode, key: KeyPress) -> (r: Option<TypeAction>)
    ensures
        r == typed(mode, key),
{
    match key.key {
        Key::Char(c) => if key.ctrl {
            None
        } else if mode == InputMode::CommandLevel1 {
            Some(TypeAction::CommandChar(c))
        } else if mode == InputMode::CommandLevel2 {
            Some(TypeAction::SubCommandChar(c))
        } else {
            Some(TypeAction::Char(c))
        },
        _ => None,
    }
}

/// What the interface knows when a key arrives.
#[derive(Debug, Clone, Copy, PartialEq, Eq, Structural)]
pub struct KeyContext {
    pub mode: InputMode,
    /// Vim-style movement keys are on.
    pub vim: bool,
    pub input_empty: bool,
    /// The input is empty once trimmed.
    pub input_blank: bool,
    /// A task is running.
    pub processing: bool,
    /// Enter on this line resumes a waiting question.
    pub resume_question: bool,
}

/// What a key press does.
#[derive(Debug, Clone, Copy, PartialEq, Eq, Structural)]
pub enum KeyAction {
    Quit,
    Escape(EscAction),
    Enter(EnterAction),
    Tab(TabAction),
    Navigate(NavAction),
    Chat(ChatAction),
    Backspace(BackspaceAction),
    Type(TypeAction),
    Ignored,
}

/// Ctrl+Q quits; Esc, Enter and Tab always act; otherwise navigation, then
/// the chat shortcuts, then Backspace, then typing get the key in turn.
pub open spec fn key_action(cx: KeyContext, key: KeyPress) -> KeyAction {
    if key.key == Key::Char('q') && key.ctrl {
        KeyAction::Quit
    } else if key.key == Key::Esc {
        KeyAction::Escape(escape(cx.mode, cx.processing))
    } else if key.key == Key::Enter {
        KeyAction::Enter(enter(cx.mode, cx.resume_question))
    } else if key.key == Key::Tab {
        KeyAction::Tab(tab(cx.mode))
    } else if navigation(cx.mode, key.key, cx.vim, cx.input_empty) is Some {
        KeyAction::Navigate(navigation(cx.mode, key.key, cx.vim, cx.input_empty)->0)
    } else if chat_control(cx.mode, key, cx.input_empty, cx.input_blank, cx.processing) is Some {
        KeyAction::Chat(chat_control(cx.mode, key, cx.input_empty, cx.input_blank, cx.processing)->0)
    } else if key.key == Key::Backspace && backspace(cx.mode) is Some {
        KeyAction::Backspace(backspace(cx.mode)->0)
    } else if typed(cx.mode, key) is Some {
        KeyAction::Type(typed(cx.mode, key)->0)
    } else {
        KeyAction::Ignored
    }
}

/// Executable `key_action`.
pub fn dispatch_key(cx: KeyContext, key: KeyPress) -> (r: KeyAction)
    ensures
        r == key_action(cx, key),
{
    if key.key == Key::Char('q') && key.ctrl {
        return KeyAction::Quit;
    }
    if key.key == Key::Esc {
        return KeyAction::Escape(escape_action(cx.mode, cx.processing));
    }
    if key.key == Key::Enter {
        return KeyAction::Enter(enter_action(cx.mode, cx.resume_question));
    }
    if key.key == Key::Tab {
        return KeyAction::Tab(tab_action(cx.mode));
    }
    if let Some(a) = navigation_action(cx.mode, key.key, cx.vim, cx.input_empty) {
        return KeyAction::Navigate(a);
    }
    if let Some(a) = chat_control_action(cx.mode, key, cx.input_empty, cx.input_blank, cx.processing) {
        return KeyAction::Chat(a);
    }
    if key.key == Key::Backspace {
        if let Some(a) = backspace_action(cx.mode) {
            return KeyAction::Backspace(a);
        }
    }
    if let Some(a) = type_action(cx.mode, key) {
        return KeyAction::Type(a);
    }
    KeyAction::Ignored
}


/// After Backspace while typing a command: the command list stays open
/// while the line still starts with `/`.
pub fn command_list_stays(line: &str) -> (r: bool)
    ensures
        r == (line@.len() > 0 && line@[0] == '/'),
{
    let c = crate::text::to_chars(line);
    c.len() > 0 && c[0] == '/'
}

/// After Backspace while typing a sub-command: back to the command list
/// once the line is the command alone or no longer starts with it.
pub fn back_to_command_list(line: &str, command: &str) -> (r: bool)
    ensures
        r == (line@ == command@ || !crate::text::starts_with(line@, command@)),
{
    let l = crate::text::to_chars(line);
    let c = crate::text::to_chars(command);
    crate::text::chars_eq(l.as_slice(), c.as_slice()) || !crate::text::starts_with_chars(l.as_slice(), c.as_slice())
}


/// The notice shown when a mode is left with Esc, if that mode has one.
pub open spec fn cancel_text(mode: InputMode) -> Option<Seq<char>> {
    match mode {
        InputMode::ProviderSelect => Some("已取消 provider 选择"@),
        InputMode::ProviderRename => Some("已取消 provider 重命名"@),
        InputMode::ModelSelect => Some("已取消模型选择"@),
        InputMode::ThemeSelect => Some("已取消主题选择"@),
        InputMode::LoginBaseUrl | InputMode::LoginApiKey => Some("已取消登录配置"@),
        InputMode::SkillsSelect => Some("已取消 skills 选择"@),
        InputMode::McpSelect => Some("已取消 MCP 选择"@),
        InputMode::TasksSelect => Some("已取消任务选择"@),
        InputMode::CheckpointSelect => Some("已取消检查点选择"@),
        InputMode::SessionSelect => Some("已取消会话切换"@),
        InputMode::ConfigSelect => Some("已取消配置管理"@),
        _ => None,
    }
}

/// Executable `cancel_text`.
pub fn cancel_notice(mode: InputMode) -> (r: Option<&'static str>)
    ensures
        match r {
            Some(s) => cancel_text(mode) == Some(s@),
            None => cancel_text(mode) is None,
        },
{
    match mode {
        InputMode::ProviderSelect => Some("已取消 provider 选择"),
        InputMode::ProviderRename => Some("已取消 provider 重命名"),
        InputMode::ModelSelect => Some("已取消模型选择"),
        InputMode::ThemeSelect => Some("已取消主题选择"),
        InputMode::LoginBaseUrl | InputMode::LoginApiKey => Some("已取消登录配置"),
        InputMode::SkillsSelect => Some("已取消 skills 选择"),
        InputMode::McpSelect => Some("已取消 MCP 选择"),
        InputMode::TasksSelect => Some("已取消任务选择"),
        InputMode::CheckpointSelect => Some("已取消检查点选择"),
        InputMode::SessionSelect => Some("已取消会话切换"),
        InputMode::ConfigSelect => Some("已取消配置管理"),
        _ => None,
    }
}

} // verus!

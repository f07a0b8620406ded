//! The state of the interface that keys and finished tasks change: the
//! input line, what the input box is for, the dialog state, the execution
//! mode and whether thinking is on for the current model.

use vstd::prelude::*;
use crate::input::InputMode;
use crate::interaction::{ExecutionMode, InteractionState};
use crate::keys::{escape, escape_action, ChatAction, EscAction};
use crate::mode::{cycle_mode, next_word};
use crate::queue::{QueueView, TaskQueue};

verus! {

/// The interface's state as far as the step functions below change it.
#[derive(Debug)]
pub struct ScreenState {
    pub input: String,
    pub input_mode: InputMode,
    pub interaction: InteractionState,
    pub execution_mode: ExecutionMode,
    /// Whether thinking is on for the current model.
    pub thinking: bool,
    /// The summary of the last multi-role run, shown beside the chat.
    pub orchestration_summary: Option<String>,
}

pub ghost struct ScreenView {
    pub input: Seq<char>,
    pub input_mode: InputMode,
    pub interaction: InteractionState,
    pub execution_mode: ExecutionMode,
    pub thinking: bool,
    pub orchestration_summary: Option<Seq<char>>,
}

impl View for ScreenState {
    type V = ScreenView;

    open spec fn view(&self) -> ScreenView {
        ScreenView {
            input: self.input@,
            input_mode: self.input_mode,
            interaction: self.interaction,
            execution_mode: self.execution_mode,
            thinking: self.thinking,
            orchestration_summary: match &self.orchestration_summary {
                Some(t) => Some(t@),
                None => None,
            },
        }
    }
}

impl ScreenState {
    /// Forgets the summary of the last multi-role run, before a new run.
    pub fn reset_orchestration_summary(&mut self)
        ensures
            final(self)@ == (ScreenView { orchestration_summary: None, ..old(self)@ }),
    {
        self.orchestration_summary = None;
    }
}

/// The queue after cancelling its running task, if any.
pub open spec fn canceled_queue(q: QueueView) -> QueueView {
    QueueView {
        canceled: match q.active {
            Some(a) => if q.canceled.contains(a) { q.canceled } else { q.canceled.push(a) },
            None => q.canceled,
        },
        ..q
    }
}

/// The state after Esc took `action`: cancelling the running task leaves
/// the screen as it is; leaving the optimisation preview returns to chat;
/// leaving the to-do confirmation returns to chat with the dialog idle;
/// leaving a question or the command list clears the line and returns to
/// chat; leaving a sub-command list returns to the command list with the
/// command's name on the line (`level1_name`, when one is open); any other
/// mode is left for chat with the line cleared.
pub open spec fn after_escape(s: ScreenView, action: EscAction, level1_name: Option<Seq<char>>) -> ScreenView {
    match action {
        EscAction::CancelTask => s,
        EscAction::CancelOptimization => ScreenView { input_mode: InputMode::Chat, ..s },
        EscAction::CancelTodo => ScreenView {
            interaction: InteractionState::Idle,
            input_mode: InputMode::Chat,
            ..s
        },
        EscAction::BackToLevel1 => ScreenView {
            input_mode: InputMode::CommandLevel1,
            input: match level1_name {
                Some(n) => n,
                None => s.input,
            },
            ..s
        },
        _ => ScreenView { input: Seq::empty(), input_mode: InputMode::Chat, ..s },
    }
}

/// Esc: the action is decided from the input mode and whether something
/// runs; cancelling the running task marks it in the queue, so that its
/// result is dropped when it arrives, and the queue is otherwise left as it
/// was.
pub fn press_escape(s: &mut ScreenState, queue: &mut TaskQueue, level1_name: Option<&str>) -> (r: EscAction)
    requires
        old(queue).wf(),
    ensures
        r == escape(old(s).input_mode, old(queue).processing),
        final(s)@ == after_escape(
            old(s)@,
            r,
            match level1_name {
                Some(n) => Some(n@),
                None => None,
            },
        ),
        final(queue).wf(),
        final(queue)@ == if r == EscAction::CancelTask { canceled_queue(old(queue)@) } else { old(queue)@ },
{
    let action = escape_action(s.input_mode, queue.processing);
    match action {
        EscAction::CancelTask => {
            let _ = queue.cancel_active();
        },
        EscAction::CancelOptimization => {
            s.input_mode = InputMode::Chat;
        },
        EscAction::CancelTodo => {
            s.interaction = InteractionState::Idle;
            s.input_mode = InputMode::Chat;
        },
        EscAction::BackToLevel1 => {
            s.input_mode = InputMode::CommandLevel1;
            if let Some(n) = level1_name {
                s.input = String::from_str(n);
            }
        },
        _ => {
            s.input = String::new();
            s.input_mode = InputMode::Chat;
        },
    }
    action
}

/// The state after a chat-line shortcut: Ctrl+T turns thinking on or off;
/// Alt+M moves to the next execution mode; `/` on the empty line opens the
/// command list with `/` typed; the others change none of this state (they
/// work on the conversation or on the rewrite of the line).
pub open spec fn after_chat_action(s: ScreenView, action: ChatAction) -> ScreenView {
    match action {
        ChatAction::ToggleThinking => ScreenView { thinking: !s.thinking, ..s },
        ChatAction::CycleMode => ScreenView { execution_mode: next_word(s.execution_mode).mode_of(), ..s },
        ChatAction::OpenCommands => ScreenView {
            input_mode: InputMode::CommandLevel1,
            input: s.input.push('/'),
            ..s
        },
        _ => s,
    }
}

/// Applies a chat-line shortcut.
pub fn apply_chat_action(s: &mut ScreenState, action: ChatAction)
    ensures
        final(s)@ == after_chat_action(old(s)@, action),
{
    match action {
        ChatAction::ToggleThinking => {
            s.thinking = !s.thinking;
        },
        ChatAction::CycleMode => {
            s.execution_mode = cycle_mode(s.execution_mode).mode();
        },
        ChatAction::OpenCommands => {
            s.input_mode = InputMode::CommandLevel1;
            crate::text::string_push(&mut s.input, '/');
        },
        _ => {},
    }
}

/// After a finished task: in plan mode a reply that made a to-do list
/// (`captured`) puts the interface into to-do confirmation, where Enter
/// confirms the list and Esc leaves it; otherwise nothing changes.
pub open spec fn after_plan_reply(s: ScreenView, captured: bool) -> ScreenView {
    if captured && s.execution_mode == ExecutionMode::Plan {
        ScreenView { interaction: InteractionState::TodoConfirmation, input_mode: InputMode::TodoConfirm, ..s }
    } else {
        s
    }
}

/// Applies `after_plan_reply`.
pub fn enter_todo_confirmation(s: &mut ScreenState, captured: bool)
    ensures
        final(s)@ == after_plan_reply(old(s)@, captured),
{
    if captured && s.execution_mode == ExecutionMode::Plan {
        s.interaction = InteractionState::TodoConfirmation;
        s.input_mode = InputMode::TodoConfirm;
    }
}

} // verus!

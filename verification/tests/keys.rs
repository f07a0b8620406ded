use sacode_cli::input::{
    apply_paste, clamp_cursor_col, is_editable_input_mode, layout_input_lines, pasted_image_file_name, pasted_image_snippet,
    InputMode, PasteEffect,
};
use sacode_cli::keys::{
    back_to_command_list, cancel_notice, command_list_stays, dispatch_key, navigation_action,
    select_down, select_up, BackspaceAction, ChatAction, EnterAction, EscAction, Key, KeyAction,
    KeyContext, KeyPress, NavAction, Picker, TabAction, TypeAction,
};
use sacode_cli::history::InputHistory;
use sacode_cli::scroll::{
    input_arrow_down, input_arrow_up, input_wheel, message_scroll_max, wheel_target, Area, ArrowOutcome,
    MessageScroll, WheelTarget,
};
use sacode_cli::local_command::{
    answer_argument, answer_notice, answer_reply, classify_local_command, AnswerReply, LocalCommand,
};

fn cx(mode: InputMode) -> KeyContext {
    KeyContext {
        mode,
        vim: false,
        input_empty: true,
        input_blank: true,
        processing: false,
        resume_question: false,
    }
}

fn press(key: Key) -> KeyPress {
    KeyPress { key, ctrl: false, alt: false }
}

fn six_lines() -> String {
    ["line1", "line2", "line3", "line4", "line5", "line6"].join("\n")
}

fn typed(mode: InputMode, input: &str) -> KeyContext {
    let mut c = cx(mode);
    c.input_empty = input.is_empty();
    c.input_blank = input.trim().is_empty();
    c
}

#[test]
fn chat_up_key_navigates_history_only_on_first_visible_line() {
    let mut history = InputHistory {
        sent: vec!["上一条消息".to_string()],
        index: None,
        draft: String::new(),
        input: six_lines(),
    };
    let (_, cursor, _) = layout_input_lines(&history.input, 40);
    assert_eq!(
        dispatch_key(typed(InputMode::Chat, &history.input), press(Key::Up)),
        KeyAction::Navigate(NavAction::HistoryUp)
    );
    // Scrolled down to line 2: the key scrolls the input box up a line.
    assert_eq!(input_arrow_up(cursor, 2), ArrowOutcome::Scrolled(1));
    assert_ne!(history.input, "上一条消息");

    // The cursor's line is the first one shown: the key browses the history.
    assert_eq!(input_arrow_up(cursor, 5), ArrowOutcome::History);
    history.navigate_up();
    assert_eq!(history.input, "上一条消息");
}

#[test]
fn chat_down_key_navigates_history_only_on_last_visible_line() {
    let mut history = InputHistory {
        sent: vec!["旧消息一".to_string(), "旧消息二".to_string()],
        index: Some(0),
        draft: String::new(),
        input: six_lines(),
    };
    let height = 4;
    let (_, cursor, _) = layout_input_lines(&history.input, 40);
    assert_eq!(
        dispatch_key(typed(InputMode::Chat, &history.input), press(Key::Down)),
        KeyAction::Navigate(NavAction::HistoryDown)
    );
    assert_eq!(input_arrow_down(cursor, 0, height), ArrowOutcome::Scrolled(1));

    assert_eq!(input_arrow_down(cursor, 2, height), ArrowOutcome::History);
    history.navigate_down();
    assert_eq!(history.input, "旧消息二");

    history.input = "旧消息一".to_string();
    history.index = Some(0);
    let (_, cursor, _) = layout_input_lines(&history.input, 40);
    assert_eq!(input_arrow_down(cursor, 0, height), ArrowOutcome::History);
    history.navigate_down();
    assert_eq!(history.input, "旧消息二");
}

#[test]
fn chat_arrow_keys_do_not_scroll_message_history() {
    let mut messages = MessageScroll { offset: 7, follow_bottom: false };
    let mut history = InputHistory { sent: Vec::new(), index: None, draft: String::new(), input: "draft".to_string() };
    let (_, cursor, _) = layout_input_lines(&history.input, 40);
    let c = typed(InputMode::Chat, &history.input);

    assert_eq!(dispatch_key(c, press(Key::Down)), KeyAction::Navigate(NavAction::HistoryDown));
    assert_eq!(input_arrow_down(cursor, 0, 3), ArrowOutcome::History);
    history.navigate_down();
    assert_eq!(messages.offset, 7);

    assert_eq!(dispatch_key(c, press(Key::Up)), KeyAction::Navigate(NavAction::HistoryUp));
    assert_eq!(input_arrow_up(cursor, 0), ArrowOutcome::History);
    history.navigate_up();
    assert_eq!(messages.offset, 7);
    assert_eq!(history.input, "draft");

    // Only Page Up / Page Down move the message panel.
    assert_eq!(dispatch_key(c, press(Key::PageUp)), KeyAction::Navigate(NavAction::PageUp));
    messages.scroll_lines(false, 5, 20);
    assert_eq!(messages.offset, 2);
}

#[test]
fn mouse_wheel_scrolls_input_when_chat_input_is_editable() {
    let input = ["line1", "line2", "line3", "line4", "line5", "line6", "line7"].join("\n");
    let input_area = Area { x: 0, y: 10, width: 40, height: 3 };
    let message_area = Area { x: 0, y: 0, width: 40, height: 8 };
    let messages = MessageScroll { offset: 4, follow_bottom: false };
    let (lines, _, _) = layout_input_lines(&input, 40);
    let editable = is_editable_input_mode(InputMode::Chat);

    assert_eq!(wheel_target(1, 10, message_area, input_area, editable), WheelTarget::Input);
    let offset = input_wheel(0, true, lines.len(), 3);
    assert!(offset > 0);
    assert_eq!(messages.offset, 4);

    assert_eq!(wheel_target(1, 10, message_area, input_area, editable), WheelTarget::Input);
    assert_eq!(input_wheel(offset, false, lines.len(), 3), offset - 1);
    assert_eq!(messages.offset, 4);
}

#[test]
fn mouse_wheel_over_message_panel_still_scrolls_messages() {
    let input_area = Area { x: 0, y: 10, width: 40, height: 3 };
    let message_area = Area { x: 0, y: 0, width: 40, height: 8 };
    let mut messages = MessageScroll { offset: 4, follow_bottom: true };
    let input_offset = 0;
    let editable = is_editable_input_mode(InputMode::Chat);

    assert_eq!(wheel_target(1, 1, message_area, input_area, editable), WheelTarget::Messages);
    let max = message_scroll_max(20, false, 8);
    messages.scroll_lines(false, 3, max);
    assert_eq!(input_offset, 0);
    assert!(!messages.follow_bottom);
    assert_eq!(messages.offset, max - 3);
    // Outside both panels the wheel does nothing.
    assert_eq!(wheel_target(50, 1, message_area, input_area, editable), WheelTarget::Nothing);
}

#[test]
fn message_scroll_up_moves_offset_when_following_bottom() {
    let max = message_scroll_max(40, false, 5);
    let mut s = MessageScroll::new();
    s.scroll_to_bottom(max);
    let bottom = s.offset;
    s.scroll_up(max);
    assert!(!s.follow_bottom);
    assert_eq!(s.offset, bottom.saturating_sub(1));
    s.scroll_down(max);
    assert_eq!(s.offset, bottom);
    s.scroll_down(max);
    assert!(s.follow_bottom);
}

#[test]
fn ctrl_q_quits_in_every_mode() {
    for mode in [InputMode::Chat, InputMode::ModelSelect, InputMode::PendingQuestion] {
        let k = KeyPress { key: Key::Char('q'), ctrl: true, alt: false };
        assert_eq!(dispatch_key(cx(mode), k), KeyAction::Quit);
    }
}

#[test]
fn escape_depends_on_mode() {
    let mut c = cx(InputMode::Chat);
    c.processing = true;
    assert_eq!(dispatch_key(c, press(Key::Esc)), KeyAction::Escape(EscAction::CancelTask));
    assert_eq!(dispatch_key(cx(InputMode::CommandLevel2), press(Key::Esc)), KeyAction::Escape(EscAction::BackToLevel1));
    assert_eq!(dispatch_key(cx(InputMode::ModelSelect), press(Key::Esc)), KeyAction::Escape(EscAction::CancelMode));
}

#[test]
fn enter_resumes_a_waiting_question_first() {
    let mut c = cx(InputMode::Chat);
    c.resume_question = true;
    assert_eq!(dispatch_key(c, press(Key::Enter)), KeyAction::Enter(EnterAction::ResumeQuestion));
    assert_eq!(dispatch_key(cx(InputMode::Chat), press(Key::Enter)), KeyAction::Enter(EnterAction::SendMessage));
    assert_eq!(
        dispatch_key(cx(InputMode::PendingQuestion), press(Key::Enter)),
        KeyAction::Enter(EnterAction::SubmitQuestion)
    );
}

#[test]
fn tab_and_pickers() {
    assert_eq!(dispatch_key(cx(InputMode::ConfigSelect), press(Key::Tab)), KeyAction::Tab(TabAction::ToggleConfigScope));
    assert_eq!(
        dispatch_key(cx(InputMode::ModelSelect), press(Key::Down)),
        KeyAction::Navigate(NavAction::Down(Picker::Model))
    );
    assert_eq!(navigation_action(InputMode::ProviderSelect, Key::Char('r'), false, true), Some(NavAction::RenameProvider));
    assert_eq!(navigation_action(InputMode::CommandLevel1, Key::Char('l'), true, true), Some(NavAction::ConfirmLevel1));
    assert_eq!(navigation_action(InputMode::Chat, Key::Char('h'), true, true), Some(NavAction::Nothing));
}

#[test]
fn question_dialog_keys() {
    let c = cx(InputMode::PendingQuestion);
    assert_eq!(dispatch_key(c, press(Key::Left)), KeyAction::Navigate(NavAction::PreviousQuestion));
    assert_eq!(dispatch_key(c, press(Key::Char(' '))), KeyAction::Navigate(NavAction::ToggleOption));
    assert_eq!(dispatch_key(c, press(Key::Char('x'))), KeyAction::Type(TypeAction::Char('x')));
}

#[test]
fn chat_shortcuts() {
    let c = cx(InputMode::Chat);
    let ctrl = |ch| KeyPress { key: Key::Char(ch), ctrl: true, alt: false };
    assert_eq!(dispatch_key(c, ctrl('a')), KeyAction::Chat(ChatAction::Nothing));
    let mut typed = c;
    typed.input_empty = false;
    typed.input_blank = false;
    assert_eq!(dispatch_key(typed, ctrl('a')), KeyAction::Chat(ChatAction::OptimizeInput));
    assert_eq!(dispatch_key(c, press(Key::Char('/'))), KeyAction::Chat(ChatAction::OpenCommands));
    assert_eq!(dispatch_key(typed, press(Key::Char('/'))), KeyAction::Type(TypeAction::Char('/')));
    let alt_m = KeyPress { key: Key::Char('m'), ctrl: false, alt: true };
    assert_eq!(dispatch_key(c, alt_m), KeyAction::Chat(ChatAction::CycleMode));
}

#[test]
fn backspace_and_typing_in_command_lists() {
    assert_eq!(dispatch_key(cx(InputMode::ModelSelect), press(Key::Backspace)), KeyAction::Ignored);
    assert_eq!(
        dispatch_key(cx(InputMode::CommandLevel1), press(Key::Backspace)),
        KeyAction::Backspace(BackspaceAction::EditCommand)
    );
    assert_eq!(
        dispatch_key(cx(InputMode::CommandLevel2), press(Key::Char('x'))),
        KeyAction::Type(TypeAction::SubCommandChar('x'))
    );
    assert!(command_list_stays("/se"));
    assert!(!command_list_stays(""));
    assert!(back_to_command_list("/plugin", "/plugin"));
    assert!(!back_to_command_list("/plugin l", "/plugin"));
}

#[test]
fn selection_moves_stay_in_the_list() {
    assert_eq!(select_up(0), 0);
    assert_eq!(select_up(3), 2);
    assert_eq!(select_down(2, 3), 2);
    assert_eq!(select_down(1, 3), 2);
    assert_eq!(cancel_notice(InputMode::ModelSelect), Some("已取消模型选择"));
    assert_eq!(cancel_notice(InputMode::Chat), None);
}

#[test]
fn local_commands_are_recognized() {
    assert_eq!(classify_local_command("  /init "), Some(LocalCommand::Init));
    assert_eq!(classify_local_command("/loop fix it"), Some(LocalCommand::Loop));
    assert_eq!(classify_local_command("/looping"), None);
    assert_eq!(classify_local_command("/skill"), Some(LocalCommand::Skills));
    assert_eq!(classify_local_command("/prompts"), Some(LocalCommand::Prompt));
    assert_eq!(classify_local_command("/exit"), Some(LocalCommand::Quit));
    assert_eq!(classify_local_command("/connect"), Some(LocalCommand::ConnectSelect));
    assert_eq!(classify_local_command("/connect openai"), Some(LocalCommand::ConnectWith));
    assert!(!LocalCommand::ConnectWith.clears_input());
    assert!(LocalCommand::Init.clears_input());
    assert_eq!(classify_local_command("hello"), None);
    assert_eq!(classify_local_command("/answer yes"), Some(LocalCommand::Answer));
}

#[test]
fn answer_command_needs_question_and_text() {
    assert_eq!(answer_argument(" /answer   是的  "), "是的");
    assert_eq!(answer_argument("/answer"), "");
    assert_eq!(answer_reply(false, "x"), AnswerReply::NoPendingQuestion);
    assert_eq!(answer_reply(true, ""), AnswerReply::Usage);
    assert_eq!(answer_reply(true, "x"), AnswerReply::Resume);
    assert_eq!(answer_notice(AnswerReply::Usage), Some("用法: /answer <你的回答>"));
}

#[test]
fn input_modes_and_cursor() {
    assert!(is_editable_input_mode(InputMode::Chat));
    assert!(!is_editable_input_mode(InputMode::ModelSelect));
    assert_eq!(clamp_cursor_col(10, 5), 4);
    assert_eq!(clamp_cursor_col(2, 5), 2);
    assert_eq!(clamp_cursor_col(2, 0), 0);
}

#[test]
fn layout_wraps_at_width() {
    let (lines, line, col) = layout_input_lines("abcdef", 4);
    assert_eq!(lines, vec!["abcd".to_string(), "ef".to_string()]);
    assert_eq!((line, col), (1, 2));
    let (lines, line, col) = layout_input_lines("ab\n", 4);
    assert_eq!(lines, vec!["ab".to_string(), "".to_string()]);
    assert_eq!((line, col), (1, 0));
    let (lines, _, col) = layout_input_lines("中文字", 4);
    assert_eq!(lines, vec!["中文".to_string(), "字".to_string()]);
    assert_eq!(col, 2);
}

#[test]
fn paste_goes_to_the_input_except_in_pick_lists() {
    let mut input = "ab".to_string();
    assert_eq!(apply_paste(&mut input, InputMode::ModelSelect, "zz"), PasteEffect::Ignored);
    assert_eq!(input, "ab");
    assert_eq!(apply_paste(&mut input, InputMode::Chat, "cd"), PasteEffect::Appended);
    assert_eq!(input, "abcd");
    assert_eq!(apply_paste(&mut input, InputMode::CommandLevel1, "/"), PasteEffect::RefilterCommands);
    assert_eq!(apply_paste(&mut input, InputMode::CommandLevel2, "x"), PasteEffect::RefilterSubCommands);
    assert_eq!(input, "abcd/x");
    assert_eq!(pasted_image_file_name("20260101"), "paste-20260101.ppm");
    assert!(pasted_image_snippet(".sacode/pasted/p.ppm").contains("`.sacode/pasted/p.ppm`"));
}

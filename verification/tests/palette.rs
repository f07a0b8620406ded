use sacode_cli::commands::{
    complete_command, complete_sub_command, duration_display, filter_level1_commands,
    filter_sub_commands, fuzzy_match, get_level1_commands, CommandCompletion, CommandDef,
    DurationDisplay, SubCommandDef,
};

#[test]
fn fuzzy_match_needs_characters_in_order() {
    assert!(fuzzy_match("", "anything"));
    assert!(fuzzy_match("ses", "/sessions"));
    assert!(fuzzy_match("sns", "/sessions"));
    assert!(!fuzzy_match("snx", "/sessions"));
    assert!(!fuzzy_match("ab", "ba"));
}

#[test]
fn level1_commands_start_with_init() {
    let commands = get_level1_commands();
    assert_eq!(commands[0].name, "/init");
    assert!(commands[0].direct_execute);
    assert!(commands.iter().all(|c| c.name.starts_with('/')));
}

#[test]
fn filtering_level1_by_typed_text() {
    let commands = get_level1_commands();
    let all = filter_level1_commands(&commands, "/");
    assert_eq!(all.len(), commands.len());
    let some = filter_level1_commands(&commands, "/sessions");
    assert!(some.iter().any(|c| c.name == "/sessions"));
    assert!(some.len() < commands.len());
    let upper = filter_level1_commands(&commands, "/SESSIONS");
    assert_eq!(upper.len(), some.len());
}

#[test]
fn filtering_sub_commands_by_last_word() {
    let cmd = CommandDef::with_subs(
        "/plugin",
        "plugins",
        vec![SubCommandDef::new("list", "列出"), SubCommandDef::with_input("install", "安装")],
    );
    let all = filter_sub_commands(&cmd, "   ");
    assert_eq!(all.len(), 2);
    // The command word itself is the last word until a sub-command is typed.
    assert_eq!(filter_sub_commands(&cmd, "/plugin ").len(), 0);
    let some = filter_sub_commands(&cmd, "/plugin inst");
    assert_eq!(some.len(), 1);
    assert_eq!(some[0].name, "install");
    assert!(some[0].needs_input);
}

#[test]
fn tab_completes_commands() {
    let simple = CommandDef::simple("/new", "新会话");
    assert_eq!(complete_command(&simple), ("/new".to_string(), CommandCompletion::Execute));
    let with_subs = CommandDef::with_subs("/mode", "模式", vec![SubCommandDef::new("plan", "p")]);
    assert_eq!(complete_command(&with_subs), ("/mode ".to_string(), CommandCompletion::OpenSubCommands));
    let bare = CommandDef::with_subs("/x", "x", Vec::new());
    assert_eq!(complete_command(&bare), ("/x".to_string(), CommandCompletion::NameOnly));
}

#[test]
fn tab_completes_sub_commands_after_two_words() {
    let install = SubCommandDef::with_input("install", "安装");
    assert_eq!(complete_sub_command("/plugin ins", &install), Some("/plugin install ".to_string()));
    let list = SubCommandDef::new("list", "列出");
    assert_eq!(complete_sub_command("  /plugin   l  ", &list), Some("/plugin list".to_string()));
    assert_eq!(complete_sub_command("/plugin ", &list), None);
}

#[test]
fn durations_pick_their_unit() {
    assert_eq!(duration_display(999), DurationDisplay::Millis(999));
    assert_eq!(duration_display(1500), DurationDisplay::Seconds(1500));
    assert_eq!(duration_display(125_000), DurationDisplay::MinutesSeconds(2, 5));
}

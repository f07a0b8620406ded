use sacode_cli::interaction::ExecutionMode;
use sacode_cli::provider_config::fallback_models;
use sacode_cli::repl::{
    connect_models, connected_text, parse_connect_command, ConnectRequest,
    classify_repl_line, connect_model, connect_preset, login_model, marked_choice_lines, parse_repl_command,
    parse_repl_mode, pick_numbered, prompt_answer, prompt_text, removable_providers, repl_notice, PickError,
    ReplCommand, ReplInput, SkillCommand,
};

fn names(v: &[&str]) -> Vec<String> {
    v.iter().map(|s| s.to_string()).collect()
}

#[test]
fn repl_lines_are_blank_commands_or_tasks() {
    assert!(matches!(classify_repl_line("   "), ReplInput::Blank));
    match classify_repl_line("  /help  ") {
        ReplInput::Command(c) => assert_eq!(c, "/help"),
        other => panic!("unexpected {:?}", other),
    }
    match classify_repl_line(" fix the bug \n") {
        ReplInput::Task(t) => assert_eq!(t, "fix the bug"),
        other => panic!("unexpected {:?}", other),
    }
}

#[test]
fn repl_commands() {
    assert!(matches!(parse_repl_command("/q"), ReplCommand::Exit));
    assert!(matches!(parse_repl_command("/quit now"), ReplCommand::Exit));
    assert!(matches!(parse_repl_command("/h"), ReplCommand::Help));
    assert!(matches!(parse_repl_command("/connect"), ReplCommand::Connect));
    assert!(matches!(parse_repl_command("/mode"), ReplCommand::Mode(None)));
    match parse_repl_command("/mode  yolo") {
        ReplCommand::Mode(Some(m)) => assert_eq!(m, "yolo"),
        other => panic!("unexpected {:?}", other),
    }
    match parse_repl_command("/mcp-show ctx7") {
        ReplCommand::McpShow(Some(n)) => assert_eq!(n, "ctx7"),
        other => panic!("unexpected {:?}", other),
    }
    assert!(matches!(parse_repl_command("/mcp-remove"), ReplCommand::McpRemove(None)));
    assert!(matches!(parse_repl_command("/provider-remove"), ReplCommand::ProviderRemove));
    assert!(matches!(parse_repl_command("/models"), ReplCommand::Models));
    assert!(matches!(parse_repl_command(""), ReplCommand::Empty));
    let c = parse_repl_command("/frobnicate x");
    assert!(matches!(&c, ReplCommand::Unknown(w) if w == "/frobnicate"));
    assert_eq!(repl_notice(&c).as_deref(), Some("Unknown command: /frobnicate"));
    assert_eq!(repl_notice(&parse_repl_command("/mode fast")).as_deref(), Some("Unknown mode: fast"));
    assert_eq!(repl_notice(&parse_repl_command("/mode plan")), None);
}

#[test]
fn skill_sub_commands() {
    assert!(matches!(parse_repl_command("/skill"), ReplCommand::Skill(SkillCommand::List)));
    assert!(matches!(parse_repl_command("/skill list"), ReplCommand::Skill(SkillCommand::List)));
    match parse_repl_command("/skill run review  the   diff") {
        ReplCommand::Skill(SkillCommand::Run(n, a)) => {
            assert_eq!(n, "review");
            assert_eq!(a, "the diff");
        }
        other => panic!("unexpected {:?}", other),
    }
    match parse_repl_command("/skill add lint Lints code run clippy") {
        ReplCommand::Skill(SkillCommand::Add(n, d, p)) => {
            assert_eq!((n.as_str(), d.as_str(), p.as_str()), ("lint", "Lints", "code run clippy"));
        }
        other => panic!("unexpected {:?}", other),
    }
    let usage = parse_repl_command("/skill add lint only");
    assert!(matches!(usage, ReplCommand::Skill(SkillCommand::AddUsage)));
    assert_eq!(repl_notice(&usage).as_deref(), Some("Usage: /skill add <name> <description> <prompt>"));
    assert_eq!(repl_notice(&parse_repl_command("/skill show")).as_deref(), Some("Usage: /skill show <name>"));
    assert_eq!(
        repl_notice(&parse_repl_command("/skill run")).as_deref(),
        Some("Usage: /skill run <name> [args...]")
    );
    assert_eq!(repl_notice(&parse_repl_command("/skill remove")).as_deref(), Some("Usage: /skill remove <name>"));
    assert_eq!(repl_notice(&parse_repl_command("/skill zap")).as_deref(), Some("Unknown /skill command: zap"));
}

#[test]
fn repl_modes() {
    assert_eq!(parse_repl_mode("plan"), Some(ExecutionMode::Plan));
    assert_eq!(parse_repl_mode("build"), Some(ExecutionMode::Build));
    assert_eq!(parse_repl_mode("yolo"), Some(ExecutionMode::Yolo));
    assert_eq!(parse_repl_mode("auto"), None);
}

#[test]
fn prompt_answers() {
    assert_eq!(prompt_text("Base URL", Some("http://x")), "Base URL [http://x]: ");
    assert_eq!(prompt_text("API Key", None), "API Key: ");
    assert_eq!(prompt_answer("  key \n", "API Key", None), Ok("key".to_string()));
    assert_eq!(prompt_answer("\n", "Provider name", Some("default")), Ok("default".to_string()));
    assert_eq!(prompt_answer("   ", "API Key", None), Err("API Key is required".to_string()));
}

#[test]
fn numbered_choices() {
    let providers = names(&["deepseek", "openai"]);
    assert_eq!(pick_numbered(&providers, "2"), Ok("openai".to_string()));
    assert_eq!(pick_numbered(&providers, "+1"), Ok("deepseek".to_string()));
    assert_eq!(pick_numbered(&providers, "0"), Ok("deepseek".to_string()));
    assert_eq!(pick_numbered(&providers, "3"), Err(PickError::OutOfRange));
    assert_eq!(pick_numbered(&providers, "two"), Err(PickError::NotANumber));
    assert_eq!(
        marked_choice_lines(&providers, "openai"),
        names(&["    1. deepseek", "  * 2. openai"])
    );
    assert_eq!(removable_providers(&names(&["a", "cur", "b"]), "cur"), names(&["a", "b"]));
    assert!(removable_providers(&names(&["cur"]), "cur").is_empty());
}

#[test]
fn connect_presets_and_default_models() {
    assert_eq!(connect_preset(2), Some(("deepseek", "https://api.deepseek.com")));
    assert_eq!(connect_preset(4), Some(("longcat", "https://api.longcat.chat/openai/v1")));
    assert_eq!(connect_preset(0), None);
    assert_eq!(connect_preset(6), None);
    let fallbacks = fallback_models("openai");
    assert_eq!(
        connect_model(&Some(names(&["m1", "m2"])), &fallbacks),
        Some(("m1".to_string(), true))
    );
    assert_eq!(connect_model(&Some(Vec::new()), &fallbacks), Some(("gpt-5.4".to_string(), false)));
    assert_eq!(connect_model(&None, &fallbacks), Some(("gpt-5.4".to_string(), false)));
    assert_eq!(connect_model(&None, &fallback_models("custom")), None);
    assert_eq!(login_model("", &names(&["m1"])), "m1");
    assert_eq!(login_model("kept", &names(&["m1"])), "kept");
    assert_eq!(login_model("", &Vec::new()), "");
}

#[test]
fn interface_connect_command() {
    assert!(matches!(parse_connect_command("/connect"), ConnectRequest::Usage));
    assert!(matches!(parse_connect_command("/connect x"), ConnectRequest::NotANumber));
    assert!(matches!(parse_connect_command("/connect 9"), ConnectRequest::Invalid(9)));
    match parse_connect_command("/connect 2 sk-123") {
        ConnectRequest::Preset(n, u, k) => {
            assert_eq!((n, u, k.as_str()), ("deepseek", "https://api.deepseek.com", "sk-123"));
        }
        other => panic!("unexpected {:?}", other),
    }
    match parse_connect_command("/connect 1") {
        ConnectRequest::Preset(n, _, k) => assert_eq!((n, k.as_str()), ("ollama", "")),
        other => panic!("unexpected {:?}", other),
    }
    let (models, default) = connect_models(Vec::new(), names(&["f1", "f2"]));
    assert_eq!((models.len(), default.as_str()), (2, "f1"));
    let (models, default) = connect_models(names(&["m"]), names(&["f1"]));
    assert_eq!((models, default), (names(&["m"]), "m".to_string()));
    assert_eq!(connect_models(Vec::new(), Vec::new()), (Vec::new(), String::new()));
    assert_eq!(
        connected_text("deepseek", &names(&["a", "b"]), "a"),
        "Provider deepseek 已连接。\n可用模型:\n  - a\n  - b\n默认: a\n输入 /models 可切换模型。"
    );
    assert_eq!(
        connected_text("x", &Vec::new(), ""),
        "Provider x 已连接。\n未能获取模型列表，请确认 API Key 正确后使用 /models 选择模型。"
    );
}

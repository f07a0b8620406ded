use sacode_cli::audit::{
    audit_help, audit_summary_text, code_audit_ai_enabled, parse_audit_command, AuditCounts, AuditFinding, AuditRequest,
};
use sacode_cli::background::{log_line, raw_log_entry, redraw_poll_millis, spinner_frame, tick};
use sacode_cli::service_commands::{mcp_choice, mcp_choice_text, mcp_details_text, mcp_option_label, McpChoice};
use sacode_cli::bootstrap::{encode_ppm, user_prompt_template};
use sacode_cli::design::extract_flag;
use sacode_cli::interaction::ExecutionMode;
use sacode_cli::mode::{cycle_mode, mode_index, mode_switched_notice, parse_mode_command, ModeRequest, ModeWord};
use sacode_cli::orchestration::conflict_kind_label;
use sacode_cli::profile_command::{parse_profile_command, provider_list, ProfileRequest};
use sacode_cli::project_profile::default_profile_config;
use sacode_cli::words::split_whitespace;
use sacode_cli::runner::build_mcp_input;
use sacode_cli::json_reply::extract_last_json_value;
use sacode_cli::usage::{usage_stats_text, ChatUsage, PerfStats, UsageStats};

fn strings(v: &[&str]) -> Vec<String> {
    v.iter().map(|s| s.to_string()).collect()
}

#[test]
fn ppm_keeps_rgb_bytes() {
    let out = encode_ppm(&[1, 2, 3, 255, 4, 5, 6, 255, 7, 8, 9], 2, 1);
    let mut expected = b"P6\n2 1\n255\n".to_vec();
    expected.extend_from_slice(&[1, 2, 3, 4, 5, 6, 7, 8, 9]);
    assert_eq!(out, expected);
    let short = encode_ppm(&[1, 2], 10, 20);
    assert_eq!(short, b"P6\n10 20\n255\n".to_vec());
}

#[test]
fn prompt_template_texts() {
    let t = user_prompt_template();
    assert!(t.optimize_input.starts_with("请将下面这段用户输入"));
    assert!(t.compress_context.ends_with("待压缩内容："));
}

#[test]
fn flags_take_the_next_argument() {
    let args = strings(&["show", "--project", "web", "--count", "--x"]);
    assert_eq!(extract_flag(&args, "--project"), Some("web".to_string()));
    assert_eq!(extract_flag(&args, "--count"), None);
    assert_eq!(extract_flag(&args, "--missing"), None);
    assert_eq!(extract_flag(&strings(&["--project"]), "--project"), None);
}

#[test]
fn conflict_kinds_have_labels() {
    assert_eq!(conflict_kind_label("route_conflict"), "路由冲突");
    assert_eq!(conflict_kind_label("polarity_conflict"), "极性冲突");
    assert_eq!(conflict_kind_label("other"), "other");
}

#[test]
fn audit_ai_is_on_unless_false() {
    assert!(code_audit_ai_enabled(None));
    assert!(code_audit_ai_enabled(Some("true")));
    assert!(code_audit_ai_enabled(Some("False")));
    assert!(!code_audit_ai_enabled(Some("false")));
}

#[test]
fn mode_commands() {
    assert_eq!(parse_mode_command("/mode plan"), ModeRequest::Switch(ModeWord::Plan));
    assert_eq!(parse_mode_command("/mode yolo"), ModeRequest::Switch(ModeWord::Auto));
    assert_eq!(parse_mode_command("/mode"), ModeRequest::OpenPicker);
    assert_eq!(parse_mode_command("/mode fast"), ModeRequest::Usage);
    assert_eq!(ModeWord::Auto.mode(), ExecutionMode::Yolo);
    assert_eq!(ModeWord::Auto.text(), "auto");
    assert_eq!(mode_index(ExecutionMode::Build), 1);
    assert_eq!(cycle_mode(ExecutionMode::Yolo), ModeWord::Plan);
    assert_eq!(cycle_mode(ExecutionMode::Build).text(), "yolo");
    assert!(mode_switched_notice(ExecutionMode::Plan).starts_with("执行模式已切换为 Plan"));
}

#[test]
fn profile_commands() {
    assert!(matches!(parse_profile_command("/profile", "a"), ProfileRequest::List));
    assert!(matches!(parse_profile_command("/profile use b", "a"), ProfileRequest::Use(ref n) if n == "b"));
    assert!(matches!(parse_profile_command("/profile use", "a"), ProfileRequest::OpenSwitcher));
    assert!(matches!(parse_profile_command("/profile show", "a"), ProfileRequest::Show(ref n) if n == "a"));
    assert!(matches!(parse_profile_command("/profile show", ""), ProfileRequest::ShowUsage));
    assert!(matches!(parse_profile_command("/profile zap", "a"), ProfileRequest::Usage));
}

#[test]
fn provider_list_marks_current() {
    assert_eq!(provider_list(&Vec::new(), "a"), None);
    assert_eq!(
        provider_list(&strings(&["a", "b"]), "b"),
        Some("Provider 配置列表:\n  a\n* b\n当前: b".to_string())
    );
}

#[test]
fn words_split_on_whitespace() {
    assert_eq!(split_whitespace("  a  bc\td \n"), strings(&["a", "bc", "d"]));
    assert!(split_whitespace("   ").is_empty());
}

#[test]
fn built_in_profiles() {
    let c = default_profile_config();
    assert_eq!(c.current, "default");
    let names: Vec<&str> = c.profiles.iter().map(|(n, _)| n.as_str()).collect();
    assert_eq!(names, vec!["default", "economy", "local"]);
}

#[test]
fn audit_commands() {
    assert!(matches!(parse_audit_command("/audit"), AuditRequest::Run));
    assert!(matches!(parse_audit_command("/audit run"), AuditRequest::Run));
    assert!(matches!(parse_audit_command("/audit -h"), AuditRequest::Help));
    assert!(matches!(parse_audit_command("/audit --help"), AuditRequest::Help));
    assert!(matches!(parse_audit_command("/audit fix"), AuditRequest::FixUsage));
    match parse_audit_command("/audit fix out/report.json") {
        AuditRequest::Fix(p) => assert_eq!(p, "out/report.json"),
        other => panic!("unexpected {:?}", other),
    }
    assert!(audit_help().starts_with("用法: /audit [run]"));
}

#[test]
fn audit_summary_lists_ten_findings_and_the_report() {
    let counts = AuditCounts { high: 1, medium: 2, low: 3, info: 4, ai_used: true, heuristic: 8, ai: 4 };
    let findings: Vec<AuditFinding> = (0..12)
        .map(|i| AuditFinding {
            severity: "low".to_string(),
            id: format!("R{}", i),
            file: "src/a.rs".to_string(),
            line: if i == 0 { None } else { Some(i) },
            title: "t".to_string(),
        })
        .collect();
    let text = audit_summary_text(&counts, &findings, Some("r.json"));
    assert!(text.starts_with("代码审计完成: high=1 medium=2 low=3 info=4 ai=true (启发式=8 AI发现=4)\n"));
    assert!(text.contains("  [low] R0 src/a.rs:0 t\n"));
    assert!(text.contains("  [low] R9 src/a.rs:9 t\n"));
    assert!(!text.contains("R10"));
    assert!(text.contains("  ... 另有 2 条\n"));
    assert!(text.ends_with("报告: r.json\n修复: /audit fix r.json"));
    let short = audit_summary_text(&counts, &Vec::new(), None);
    assert_eq!(short, "代码审计完成: high=1 medium=2 low=3 info=4 ai=true (启发式=8 AI发现=4)\n");
}

#[test]
fn spinner_and_logs() {
    assert_eq!(tick(true, 3), (true, 4));
    assert_eq!(tick(true, 9), (true, 0));
    assert_eq!(tick(true, usize::MAX), (true, ((usize::MAX as u128 + 1) % 10) as usize));
    assert_eq!(tick(false, 5), (false, 5));
    assert_eq!(spinner_frame(0), "⠋");
    assert_eq!(spinner_frame(11), "⠙");
    assert_eq!(redraw_poll_millis(true), 100);
    assert_eq!(redraw_poll_millis(false), 300);
    assert_eq!(log_line("12:00", "send", "  a \n b\tc "), "12:00 [send] a b c\n");
    assert_eq!(raw_log_entry("12:00", "raw", " body \n"), "12:00 [raw]\nbody\n---\n");
}

#[test]
fn mcp_texts() {
    assert_eq!(mcp_details_text("ctx", "http", true, "https://x"), "Name: ctx\nType: http\nEnabled: true\nURL: https://x");
    assert_eq!(mcp_option_label("https://x", "project"), "https://x [project]");
    assert_eq!(mcp_choice(Some("remove")), McpChoice::Remove);
    assert_eq!(mcp_choice(Some("show")), McpChoice::Show);
    assert_eq!(mcp_choice(None), McpChoice::Show);
    assert_eq!(mcp_choice_text("ctx", "https://x [user]", false), "MCP 服务: ctx\nURL: https://x [user]\n状态: 禁用");
}

#[test]
fn usage_counters_and_stats_text() {
    let mut stats = UsageStats::new();
    stats.record(ChatUsage { prompt_tokens: 100, completion_tokens: 50, total_tokens: 150 }, "deepseek:deepseek-chat".to_string());
    stats.record(ChatUsage { prompt_tokens: 200, completion_tokens: 100, total_tokens: 300 }, "openai:gpt-4o-mini".to_string());
    assert_eq!((stats.requests, stats.prompt_tokens, stats.completion_tokens, stats.total_tokens), (2, 300, 150, 450));
    let text = usage_stats_text(&stats, "0.123456", "none", "待配置");
    assert_eq!(
        text,
        "Token 与费用统计\n请求数: 2\n输入 tokens: 300\n输出 tokens: 150\n总 tokens: 450\n估算费用: $0.123456\n当前模型: openai:gpt-4o-mini\n计价规则: 待配置"
    );
    assert!(usage_stats_text(&UsageStats::new(), "0.000000", "内置执行", "x").contains("当前模型: 内置执行"));
    let mut perf = PerfStats { total_task_duration_ms: 0, api_duration_ms: 0, tool_duration_ms: 0 };
    perf.record(1, 2, 3);
    perf.record(10, 20, 30);
    assert_eq!(perf, PerfStats { total_task_duration_ms: 33, api_duration_ms: 11, tool_duration_ms: 22 });
}

#[test]
fn mcp_input_fills_each_declared_prompt_field_in_order() {
    let input = build_mcp_input(&Some(strings(&["text", "limit", "query"])), "rust async");
    assert_eq!(input.fields, strings(&["query", "text"]));
    assert_eq!(input.prompt, "rust async");
}

#[test]
fn mcp_input_falls_back_to_query() {
    let input = build_mcp_input(&Some(strings(&["limit"])), "p");
    assert_eq!(input.fields, strings(&["query"]));
    let input = build_mcp_input(&None, "p");
    assert_eq!(input.fields, strings(&["query"]));
    assert_eq!(input.prompt, "p");
}

#[test]
fn last_json_value_of_a_reply() {
    assert_eq!(extract_last_json_value(" {\"a\": 1} ").as_deref(), Some(" {\"a\": 1} "));
    assert_eq!(
        extract_last_json_value("分析如下 {\"x\": 1}\n结果: {\"ok\": [1, 2]}").as_deref(),
        Some("{\"ok\": [1, 2]}")
    );
    assert_eq!(extract_last_json_value("结果: [1, 2] 完").as_deref(), None);
    assert_eq!(extract_last_json_value("没有 JSON").as_deref(), None);
}

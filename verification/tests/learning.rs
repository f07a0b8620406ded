use sacode_cli::learning::{extract_learnings, LearnedFact, LearnedKind};
use sacode_cli::runner::{format_learned_facts_summary, join_strings, preview, elapsed_ms};

#[test]
fn extract_learnings_detects_preference_workflow_and_decision() {
    let facts = extract_learnings(
        "以后回复保持简洁。\n提交前先运行检查再继续。",
        "当前项目以 Cargo.toml 和 workflow 为准。",
    );
    assert!(facts.iter().any(|fact| fact.kind == LearnedKind::Preference));
    assert!(facts.iter().any(|fact| fact.kind == LearnedKind::Workflow));
    assert!(facts.iter().any(|fact| fact.kind == LearnedKind::Decision));
}

#[test]
fn extract_learnings_skips_one_off_task_requests() {
    let facts = extract_learnings("帮我修复登录问题。请你先看报错再修改。", "这次先把接口跑通。");
    assert!(facts.is_empty());
}

#[test]
fn extract_learnings_only_takes_decision_from_provider_response() {
    let facts = extract_learnings(
        "以后统一使用 cargo test。提交前先检查 diff 再继续。当前项目以 Cargo.toml 为准。",
        "当前项目以 Cargo.toml 为准。以后回复保持简洁。提交前先检查 diff 再继续。",
    );

    assert!(facts.iter().any(|fact| fact.kind == LearnedKind::Preference));
    assert!(facts.iter().any(|fact| fact.kind == LearnedKind::Workflow));
    assert!(facts.iter().any(|fact| fact.kind == LearnedKind::Decision));
    assert_eq!(facts.iter().filter(|fact| fact.kind == LearnedKind::Preference).count(), 1);
    assert_eq!(facts.iter().filter(|fact| fact.kind == LearnedKind::Workflow).count(), 1);
    assert_eq!(facts.iter().filter(|fact| fact.kind == LearnedKind::Decision).count(), 1);
}

#[test]
fn format_learned_facts_summary_groups_by_kind() {
    let facts = vec![
        LearnedFact {
            kind: LearnedKind::Preference,
            content: "以后回复保持简洁".to_string(),
            context: "test".to_string(),
        },
        LearnedFact {
            kind: LearnedKind::Workflow,
            content: "提交前先检查".to_string(),
            context: "test".to_string(),
        },
        LearnedFact {
            kind: LearnedKind::Workflow,
            content: "完成后再继续".to_string(),
            context: "test".to_string(),
        },
    ];

    let summary = format_learned_facts_summary(&facts).expect("summary");
    assert_eq!(summary, "本轮已写入项目 wiki：偏好 1 条，流程 2 条");
}

#[test]
fn learned_facts_summary_is_absent_without_facts() {
    assert_eq!(format_learned_facts_summary(&[]), None);
}

#[test]
fn learned_facts_summary_counts_decisions() {
    let facts = vec![LearnedFact {
        kind: LearnedKind::Decision,
        content: "以 Cargo.toml 为准".to_string(),
        context: "x".to_string(),
    }];
    assert_eq!(format_learned_facts_summary(&facts).unwrap(), "本轮已写入项目 wiki：决策 1 条");
}

#[test]
fn repeated_lines_are_learned_once() {
    let facts = extract_learnings("以后回复保持简洁。\n以后回复保持简洁。", "");
    assert_eq!(facts.iter().filter(|fact| fact.kind == LearnedKind::Preference).count(), 1);
}

#[test]
fn join_strings_puts_separator_between_parts() {
    let parts = vec!["a".to_string(), "b".to_string(), "c".to_string()];
    assert_eq!(join_strings(&parts, ", "), "a, b, c");
    assert_eq!(join_strings(&Vec::new(), ", "), "");
}

#[test]
fn elapsed_ms_caps_at_u64_max() {
    assert_eq!(elapsed_ms(1500), 1500);
    assert_eq!(elapsed_ms(u128::from(u64::MAX) + 7), u64::MAX);
}

#[test]
fn preview_keeps_short_text() {
    assert_eq!(preview("short"), "short");
}

#[test]
fn preview_cuts_long_text_at_eighty_characters() {
    let long = "x".repeat(100);
    let p = preview(&format!("  {}  ", long));
    assert_eq!(p, format!("{}...", "x".repeat(80)));
}

#[test]
fn prompt_and_response_are_learned_apart() {
    let prompt = "以后回复保持简洁。\n提交前先运行检查再继续。";
    let response = "当前项目以 Cargo.toml 和 workflow 为准。";
    let key = |f: &LearnedFact| (f.kind, f.content.clone(), f.context.clone());
    let both: Vec<_> = extract_learnings(prompt, response).iter().map(key).collect();
    let mut apart: Vec<_> = extract_learnings(prompt, "").iter().map(key).collect();
    apart.extend(extract_learnings("", response).iter().map(key));
    assert_eq!(both, apart);
    assert!(extract_learnings("", response).iter().all(|f| f.kind == LearnedKind::Decision));
    assert!(extract_learnings(prompt, "").iter().all(|f| f.kind != LearnedKind::Decision));
}

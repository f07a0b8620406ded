use sacode_cli::interaction::ExecutionMode;
use sacode_cli::learning::{LearnedFact, LearnedKind};
use sacode_cli::report::{
    format_chat_output, format_output, format_stream_tail, tool_output_summary, PlanStep, RunEvent, RunReport,
};
use sacode_cli::runner::{find_route_candidate, prompt_with_stdin, system_prompt_with, tool_name_list, ToolResult};

fn report(response: Result<String, String>, events: Vec<RunEvent>) -> RunReport {
    RunReport {
        prompt: "task".to_string(),
        mode: ExecutionMode::Build,
        max_iterations: 8,
        tool_names: vec!["fs.read".to_string(), "bash".to_string()],
        workspace: "/w".to_string(),
        steps: vec![PlanStep { id: 1, description: "look".to_string(), status: "Pending".to_string() }],
        events,
        tool_results: Vec::new(),
        provider_response: response,
        learned_facts: Vec::new(),
        pending_question: None,
        state: Some("Completed".to_string()),
    }
}

#[test]
fn full_report_lists_everything() {
    let mut r = report(Ok("done".to_string()), vec![RunEvent::Message("hi".to_string()), RunEvent::Other]);
    r.learned_facts.push(LearnedFact { kind: LearnedKind::Workflow, content: "先测试".to_string(), context: String::new() });
    r.tool_results.push(ToolResult { iteration: 1, step_id: 1, name: "bash".to_string(), success: false, summary: "x".to_string() });
    assert_eq!(
        format_output(&r),
        "SaCode\nMode: Build\nMax Iterations: 8\nTask: task\nWorkspace: /w\nTools: fs.read, bash\nProvider Response:\ndone\nState: Completed\nLearned Facts:\n  - Workflow: 先测试\nPlan:\n  1. look [Pending]\nTool Results:\n  Step 1 - bash: FAIL - x\nEvents:\n  MSG: hi"
    );
}

#[test]
fn stream_tail_leaves_out_messages() {
    let mut r = report(
        Err("offline".to_string()),
        vec![
            RunEvent::Message("hi".to_string()),
            RunEvent::ToolStarted("bash".to_string()),
            RunEvent::ToolFinished("bash".to_string(), true, "ok!".to_string()),
            RunEvent::Error("boom".to_string()),
        ],
    );
    r.pending_question = Some("Q?".to_string());
    assert_eq!(
        format_stream_tail(&r),
        "State: Completed\nPending Question:\nQ?\nEvents:\n  TOOL_START: bash\n  TOOL_END: bash (ok) ok!\n  ERROR: boom"
    );
    let quiet = report(Err("e".to_string()), Vec::new());
    assert_eq!(format_stream_tail(&quiet), "State: Completed");
}

#[test]
fn chat_output_prefers_the_reply() {
    assert_eq!(format_chat_output(&report(Ok("reply".to_string()), Vec::new())), "reply");
    assert_eq!(format_chat_output(&report(Err("e".to_string()), Vec::new())), "任务已完成。");
    let r = report(
        Err("e".to_string()),
        vec![
            RunEvent::Thinking("hmm".to_string()),
            RunEvent::ToolFinished("fs".to_string(), false, String::new()),
            RunEvent::Done("完成".to_string()),
        ],
    );
    assert_eq!(format_chat_output(&r), "[思考] hmm\n[工具] fs 失败\n完成");
}

#[test]
fn tool_summaries_name_their_source() {
    assert_eq!(tool_output_summary(Some("web"), "\"text\""), "[web] \"text\"");
    assert_eq!(tool_output_summary(Some(""), "{}"), "{}");
    assert_eq!(tool_output_summary(None, &"a".repeat(90)), format!("{}...", "a".repeat(80)));
}

#[test]
fn plan_mode_reports_its_name() {
    let mut r = report(Ok(String::new()), Vec::new());
    r.mode = ExecutionMode::Plan;
    assert!(format_output(&r).contains("Mode: Plan"));
}

#[test]
fn run_preparation_texts() {
    assert_eq!(prompt_with_stdin("fix", Some("log")), "fix\n\n--- stdin ---\nlog");
    assert_eq!(prompt_with_stdin("fix", None), "fix");
    assert_eq!(
        system_prompt_with("base", Some("terse"), Some("likes rust")),
        "base\n\n[User Style]\nterse\n\n[User Insight]\nlikes rust"
    );
    assert_eq!(system_prompt_with("base", None, Some("i")), "base\n\n[User Insight]\ni");
    let names: Vec<String> = ["read", "bash", "read", "grep", "bash"].iter().map(|s| s.to_string()).collect();
    assert_eq!(tool_name_list(&names), vec!["bash".to_string(), "grep".to_string(), "read".to_string()]);
    let candidates = vec![
        ("deepseek".to_string(), "chat".to_string()),
        ("openai".to_string(), "gpt".to_string()),
        ("openai".to_string(), "gpt".to_string()),
    ];
    assert_eq!(find_route_candidate(&candidates, "openai", "gpt"), Some(1));
    assert_eq!(find_route_candidate(&candidates, "openai", "chat"), None);
}

fn explicit_state_output(response: &str) -> RunReport {
    RunReport {
        prompt: "测试任务".to_string(),
        mode: ExecutionMode::Build,
        max_iterations: 1,
        tool_names: vec!["web.search".to_string()],
        workspace: "/workspace".to_string(),
        steps: Vec::new(),
        events: vec![RunEvent::Done("完成".to_string())],
        tool_results: Vec::new(),
        provider_response: Ok(response.to_string()),
        learned_facts: Vec::new(),
        pending_question: None,
        state: Some("Completed".to_string()),
    }
}

#[test]
fn format_output_includes_explicit_task_state() {
    let text = format_output(&explicit_state_output("已完成"));
    assert!(text.contains("State: Completed"));
}

#[test]
fn format_output_prefers_task_run_state_over_legacy_state() {
    let output = explicit_state_output("已完成");
    let text = format_output(&output);
    assert!(text.contains("State: Completed"));
    let mut unrecorded = explicit_state_output("已完成");
    unrecorded.state = None;
    assert!(format_output(&unrecorded).contains("State: Failed"));
}

#[test]
fn format_stream_tail_omits_provider_response_body() {
    let text = format_stream_tail(&explicit_state_output("这里是完整模型正文"));
    assert!(text.contains("State: Completed"));
    assert!(!text.contains("Provider Response"));
    assert!(!text.contains("这里是完整模型正文"));
}

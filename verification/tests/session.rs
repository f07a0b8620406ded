use sacode_cli::checkpoint::{
    checkpoint_names, checkpoint_file_name, parse_checkpoint_command, role_from_name, role_name, CheckpointRequest, MessageRole,
};
use sacode_cli::conversation::{
    compress_outcome, CompressOutcome,
    build_session_summary, build_task_prompt, recent_context_messages, session_title, Message,
};
use sacode_cli::design::{parse_design_command, parse_usize, DesignRequest};
use sacode_cli::report::{PlanStep};
use sacode_cli::service_commands::{parse_mcp_command, parse_skills_command, McpRequest, SkillsRequest};
use sacode_cli::todo::{
    capture_todo_plan, confirm_todo_plan, mark_todo_completed, parse_todo_command, show_todo_plan,
    todo_confirmation_notice, TodoConfirmation, TodoRequest, TodoStatus,
};

fn msg(role: MessageRole, content: &str) -> Message {
    Message {
        role,
        content: content.to_string(),
        thinking: String::new(),
        timestamp: String::new(),
        collapsed: false,
    }
}

fn step(id: usize, d: &str) -> PlanStep {
    PlanStep { id, description: d.to_string(), status: "Pending".to_string() }
}

#[test]
fn roles_round_trip_through_checkpoints() {
    for r in [MessageRole::User, MessageRole::Assistant, MessageRole::System] {
        assert_eq!(role_from_name(Some(role_name(r))), r);
    }
    assert_eq!(role_from_name(Some("robot")), MessageRole::System);
    assert_eq!(role_from_name(None), MessageRole::System);
    assert_eq!(checkpoint_file_name("v1"), "v1.json");
}

#[test]
fn checkpoint_commands() {
    assert!(matches!(parse_checkpoint_command("/checkpoint"), CheckpointRequest::List));
    assert!(matches!(parse_checkpoint_command("/checkpoint save a"), CheckpointRequest::Save(ref n) if n == "a"));
    assert!(matches!(parse_checkpoint_command("/checkpoint save"), CheckpointRequest::SaveUsage));
    assert!(matches!(parse_checkpoint_command("/checkpoint restore"), CheckpointRequest::Restore(None)));
    assert!(matches!(parse_checkpoint_command("/checkpoint delete x"), CheckpointRequest::Delete(Some(ref n)) if n == "x"));
    assert!(matches!(parse_checkpoint_command("/checkpoint zap"), CheckpointRequest::Usage));
}

#[test]
fn design_commands() {
    assert!(matches!(parse_design_command("/design"), DesignRequest::List));
    assert!(matches!(parse_design_command("/design show"), DesignRequest::ShowUsage));
    match parse_design_command("/design variants login --count 9 --project web") {
        DesignRequest::Variants(id, project, n) => {
            assert_eq!(id, "login");
            assert_eq!(project.as_deref(), Some("web"));
            assert_eq!(n, 3);
        }
        other => panic!("{:?}", other),
    }
    match parse_design_command("/design variants login --count 0") {
        DesignRequest::Variants(_, None, n) => assert_eq!(n, 1),
        other => panic!("{:?}", other),
    }
    match parse_design_command("/design apply login --variant 2") {
        DesignRequest::Apply(id, v, p) => {
            assert_eq!(id, "login");
            assert_eq!(v.as_deref(), Some("2"));
            assert_eq!(p, None);
        }
        other => panic!("{:?}", other),
    }
    match parse_design_command("/design apply login 1") {
        DesignRequest::Apply(_, v, _) => assert_eq!(v.as_deref(), Some("1")),
        other => panic!("{:?}", other),
    }
}

#[test]
fn usize_parsing_matches_std() {
    for s in ["0", "42", "+7", "", "+", "-1", "1a", "18446744073709551615", "18446744073709551616", "007"] {
        assert_eq!(parse_usize(s), s.parse::<usize>().ok(), "{}", s);
    }
}

#[test]
fn mcp_and_skills_commands() {
    assert!(matches!(parse_mcp_command("/mcps"), McpRequest::List));
    assert!(matches!(parse_mcp_command("/mcps show a"), McpRequest::Show(Some(ref n)) if n == "a"));
    assert!(matches!(parse_mcp_command("/mcps remove"), McpRequest::Remove(None)));
    assert!(matches!(parse_mcp_command("/mcps x"), McpRequest::Usage));
    match parse_skills_command("/skills run review  src/main.rs   now") {
        SkillsRequest::Run(Some((n, rest))) => {
            assert_eq!(n, "review");
            assert_eq!(rest, "src/main.rs now");
        }
        other => panic!("{:?}", other),
    }
    match parse_skills_command("/skills add fmt Format run cargo fmt") {
        SkillsRequest::Add(n, d, p) => {
            assert_eq!((n.as_str(), d.as_str(), p.as_str()), ("fmt", "Format", "run cargo fmt"));
        }
        other => panic!("{:?}", other),
    }
    assert!(matches!(parse_skills_command("/skills add a b"), SkillsRequest::AddUsage));
    match parse_skills_command("/skills run x") {
        SkillsRequest::Run(Some((_, rest))) => assert_eq!(rest, ""),
        other => panic!("{:?}", other),
    }
}

#[test]
fn todo_plan_lifecycle() {
    assert!(capture_todo_plan("t", &vec![step(1, "a")]).is_none());
    let mut plan = capture_todo_plan("发布", &vec![step(1, "检查配置"), step(2, "执行发布")]).unwrap();
    assert_eq!(
        show_todo_plan(&Some(plan_copy(&plan))),
        "任务规划: 发布\n1. [pending] 检查配置\n2. [pending] 执行发布\n确认状态: 待确认"
    );
    let c = confirm_todo_plan(&mut plan);
    match &c {
        TodoConfirmation::Queued(q) => assert_eq!(q, &vec!["检查配置".to_string(), "执行发布".to_string()]),
        _ => panic!("expected queued items"),
    }
    assert_eq!(todo_confirmation_notice(&c), "已确认待办，加入执行队列 2 项。");
    assert!(plan.items.iter().all(|i| i.status == TodoStatus::Running));
    let again = confirm_todo_plan(&mut plan);
    assert!(matches!(again, TodoConfirmation::AlreadyConfirmed));
    assert_eq!(todo_confirmation_notice(&again), "当前待办已经确认过，正在按顺序执行。");
    mark_todo_completed(&mut plan, "执行发布");
    assert_eq!(plan.items[1].status, TodoStatus::Completed);
    assert_eq!(plan.items[0].status, TodoStatus::Running);
    mark_todo_completed(&mut plan, "执行发布");
    assert_eq!(plan.items[0].status, TodoStatus::Running);
    assert_eq!(show_todo_plan(&None), "当前没有待办列表。先发送一个需要规划的任务。");
}

fn plan_copy(p: &sacode_cli::todo::TodoPlan) -> sacode_cli::todo::TodoPlan {
    sacode_cli::todo::TodoPlan {
        source_task: p.source_task.clone(),
        items: p
            .items
            .iter()
            .map(|i| sacode_cli::todo::TodoItem { id: i.id, description: i.description.clone(), status: i.status })
            .collect(),
        confirmed: p.confirmed,
    }
}

#[test]
fn todo_commands() {
    assert_eq!(parse_todo_command("/todo"), TodoRequest::Show);
    assert_eq!(parse_todo_command("/todo confirm"), TodoRequest::Confirm);
    assert_eq!(parse_todo_command("/todo clear"), TodoRequest::Clear);
    assert_eq!(parse_todo_command("/todo zap"), TodoRequest::Usage);
}

#[test]
fn recent_context_skips_the_current_request() {
    let messages = vec![
        msg(MessageRole::User, "第一问"),
        msg(MessageRole::Assistant, "第一答"),
        msg(MessageRole::System, "通知"),
        msg(MessageRole::User, "  第二问 "),
    ];
    let recent = recent_context_messages(&messages, "第二问", 6);
    assert_eq!(recent, vec!["[用户] 第一问".to_string(), "[助手] 第一答".to_string()]);
    let last_one = recent_context_messages(&messages, "第二问", 1);
    assert_eq!(last_one, vec!["[助手] 第一答".to_string()]);
}

#[test]
fn task_prompt_has_summary_context_and_request() {
    let messages = vec![msg(MessageRole::User, "a"), msg(MessageRole::Assistant, "b"), msg(MessageRole::User, "c")];
    let p = build_task_prompt(Some(" 摘要 "), &messages, "c");
    assert_eq!(
        p,
        "以下是当前会话的历史摘要，请在后续任务中延续这些上下文与约束：\n摘要\n\n---\n\n以下是最近对话，请结合这些内容继续处理：\n[用户] a\n\n[助手] b\n\n---\n\n当前用户请求：\nc"
    );
    assert_eq!(build_task_prompt(None, &Vec::new(), " x "), "当前用户请求：\nx");
}

#[test]
fn session_summary_needs_more_than_two_messages() {
    let short = vec![msg(MessageRole::User, "a"), msg(MessageRole::Assistant, "b")];
    assert_eq!(build_session_summary(None, &short), "");
    let long = vec![
        msg(MessageRole::User, "a  b\nc"),
        msg(MessageRole::System, "x"),
        msg(MessageRole::Assistant, "d"),
        msg(MessageRole::User, "e"),
    ];
    assert_eq!(
        build_session_summary(Some("old"), &long),
        "已有摘要:\nold\n本轮对话摘要:\n- 用户: a b c\n- 助手: d\n- 用户: e"
    );
}

#[test]
fn session_title_is_first_line_of_newest_user_message() {
    assert_eq!(session_title(&Vec::new()), "新会话");
    let messages = vec![msg(MessageRole::User, "first"), msg(MessageRole::User, "line one\r\nline two"), msg(MessageRole::Assistant, "x")];
    assert_eq!(session_title(&messages), "line one");
    let long = vec![msg(MessageRole::User, &"字".repeat(40))];
    assert_eq!(session_title(&long), "字".repeat(36));
}

#[test]
fn checkpoint_directory_lists_json_stems() {
    let files: Vec<String> = ["a.json", "notes.txt", ".json", "v1.2.json", "x.json.bak", "b.", "json", "c.json"]
        .iter()
        .map(|s| s.to_string())
        .collect();
    assert_eq!(checkpoint_names(&files), vec!["a".to_string(), "v1.2".to_string(), "c".to_string()]);
    assert!(checkpoint_names(&Vec::new()).is_empty());
}

#[test]
fn compress_needs_an_idle_session_with_a_summary() {
    assert!(matches!(compress_outcome(true, "s"), CompressOutcome::Busy));
    assert_eq!(compress_outcome(true, "s").refusal(), Some("当前有任务正在执行，请等待完成后再压缩会话。"));
    assert!(matches!(compress_outcome(false, ""), CompressOutcome::NothingToCompress));
    assert_eq!(compress_outcome(false, "").refusal(), Some("当前会话内容较少，暂时无需压缩。"));
    match compress_outcome(false, "[会话目标]\n- x") {
        CompressOutcome::Compressed(n) => {
            assert_eq!(n, "当前会话已压缩。后续任务会自动携带历史摘要。\n\n摘要预览:\n[会话目标]\n- x")
        }
        other => panic!("unexpected {:?}", other),
    }
}

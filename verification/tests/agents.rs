use sacode_cli::agents::{agents_list_text, agents_prompt, agents_started_notice, parse_agents_command, AgentsRequest, RoleInfo};

#[test]
fn agents_command_lines() {
    assert!(matches!(parse_agents_command("/agents"), AgentsRequest::List));
    assert!(matches!(parse_agents_command("  /agents list "), AgentsRequest::List));
    match parse_agents_command(" /agents run  fix the login bug ") {
        AgentsRequest::Run(t) => assert_eq!(t, "fix the login bug"),
        other => panic!("unexpected {:?}", other),
    }
    assert!(matches!(parse_agents_command("/agents run   "), AgentsRequest::RunUsage));
    // The task is what follows "/agents run" exactly.
    assert!(matches!(parse_agents_command("/agents  run task"), AgentsRequest::RunUsage));
    assert!(matches!(parse_agents_command("/agents stop"), AgentsRequest::Usage));
    assert_eq!(agents_prompt("t"), "ULW[agents=tui] t");
    assert_eq!(agents_started_notice("t"), "已启动多角色编排执行。系统将按内置角色自动规划并协作完成任务：t");
}

#[test]
fn agents_list_shows_each_role_with_its_prompt() {
    let roles = vec![
        RoleInfo { id: "implementer".to_string(), stage: Some("Build".to_string()), system_prompt: "Write code.".to_string() },
        RoleInfo { id: "critic".to_string(), stage: None, system_prompt: "Criticise.".to_string() },
    ];
    let text = agents_list_text(&roles);
    assert!(text.contains("内置 Agents 角色"));
    assert!(text.contains("implementer"));
    assert!(text.contains("critic"));
    assert_eq!(
        text,
        "内置 Agents 角色:\n\n- implementer (Build)\n  Write code.\n- critic (Unknown)\n  Criticise.\n\n用法: /agents list | /agents run <任务描述>"
    );
}

#[test]
fn agents_command_lists_builtin_roles() {
    // The built-in roles come from the runtime's role registry; two of them
    // are given here as it would hand them over.
    assert!(matches!(parse_agents_command("/agents"), AgentsRequest::List));
    let roles = vec![
        RoleInfo {
            id: "implementer".to_string(),
            stage: Some("Implementation".to_string()),
            system_prompt: "实现方案".to_string(),
        },
        RoleInfo {
            id: "critic".to_string(),
            stage: Some("Review".to_string()),
            system_prompt: "审查代码".to_string(),
        },
    ];
    let last = agents_list_text(&roles);
    assert!(last.contains("内置 Agents 角色"));
    assert!(last.contains("implementer"));
    assert!(last.contains("critic"));
}

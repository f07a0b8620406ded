use sacode_cli::tools_view::{tools_text, ToolInfo};

fn t(name: &str, d: Option<&str>) -> ToolInfo {
    ToolInfo { name: name.to_string(), description: d.map(|s| s.to_string()) }
}

#[test]
fn tools_are_grouped_by_kind() {
    let tools = vec![
        t("fs.read", Some("读取文件")),
        t("fs.read_multi", Some("批量读取")),
        t("git.diff", None),
        t("media.read", Some("读取媒体")),
        t("shell.exec", Some("执行命令")),
    ];
    assert_eq!(
        tools_text(&tools),
        "可用工具 (5 个):\n文件操作:\n  fs.read - 读取文件\n  fs.read_multi - 批量读取\n\nShell:\n  shell.exec - 执行命令\n\nGit:\n  git.diff\n\n其他:\n  media.read - 读取媒体\n\n内置工具由 runtime 自动注册。\nSkills 和 MCP 工具根据配置动态加载。"
    );
}

#[test]
fn tools_without_groups() {
    assert_eq!(
        tools_text(&vec![t("task.spawn", None)]),
        "可用工具 (1 个):\n其他:\n  task.spawn\n\n内置工具由 runtime 自动注册。\nSkills 和 MCP 工具根据配置动态加载。"
    );
    assert_eq!(
        tools_text(&Vec::new()),
        "可用工具 (0 个):\n\n\n内置工具由 runtime 自动注册。\nSkills 和 MCP 工具根据配置动态加载。"
    );
}

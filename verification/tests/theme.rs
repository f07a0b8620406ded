use sacode_cli::theme::{theme_command, Rgb, ThemeName, ThemePalette};

#[test]
fn theme_names_and_aliases() {
    assert_eq!(ThemePalette::from_name(" GitHub ").map(|t| t.theme), Some(ThemeName::GitHub));
    assert_eq!(ThemePalette::from_name("VS_Code").map(|t| t.theme), Some(ThemeName::VsCode));
    assert_eq!(ThemePalette::from_name("intellij-idea").map(|t| t.theme), Some(ThemeName::Idea));
    assert_eq!(ThemePalette::from_name("solarized"), None);
    assert_eq!(ThemePalette::idea().name(), "IntelliJ IDEA");
    assert_eq!(ThemePalette::vscode().selected_bg, Rgb { r: 9, g: 71, b: 113 });
    assert_eq!(ThemePalette::github().warning, Rgb { r: 154, g: 103, b: 0 });
}

#[test]
fn theme_command_switches_or_explains() {
    let current = ThemePalette::github();
    let (t, msg) = theme_command(&current, "/theme");
    assert!(t.is_none());
    assert_eq!(msg, "当前主题: GitHub\n可用主题: github, vscode, idea\n用法: /theme <name>");
    let (t, msg) = theme_command(&current, "/theme idea");
    assert_eq!(t.map(|p| p.theme), Some(ThemeName::Idea));
    assert_eq!(msg, "主题已切换为 IntelliJ IDEA。");
    let (t, msg) = theme_command(&current, "/theme neon");
    assert!(t.is_none());
    assert_eq!(msg, "未知主题: neon\n可用主题: github, vscode, idea");
}

use sacode_cli::plugin_config::{
    default_true, PluginConfigError, PluginConfigFile, PluginConfigStore, PluginEntry, PluginSource,
};
use sacode_cli::plugin_view::{
    configured_description, configured_kind, configured_source_label, merge_plugin_entries,
    normalized_version, parse_plugin_command, plugin_matches, source_from_plugin_path,
    ConfiguredKind, PluginCommand, TuiPluginEntry, plugin_detail_text, search_results_text, RemotePlugin,
};

fn entry(name: &str, version: &str, enabled: bool) -> PluginEntry {
    PluginEntry { name: name.to_string(), version: version.to_string(), enabled }
}

fn row(name: &str, kind: &str, source: &str) -> TuiPluginEntry {
    TuiPluginEntry {
        name: name.to_string(),
        description: format!("{} plugin", name),
        kind: kind.to_string(),
        source: source.to_string(),
        enabled: true,
        version: None,
        tags: None,
    }
}

#[test]
fn plugin_files_for_user_and_project() {
    let store = PluginConfigStore::new("/w", Some("/home/u"));
    assert_eq!(store.user_path(), "/home/u/.sacode/plugins.json");
    assert_eq!(store.project_path(), "/w/.sacode/plugins.json");
    let no_home = PluginConfigStore::new("/w", None);
    assert_eq!(no_home.user_path(), "./.sacode/plugins.json");
    assert_eq!(source_from_plugin_path(&store, "/home/u/.sacode/plugins.json"), PluginSource::User);
    assert_eq!(source_from_plugin_path(&store, "/w/.sacode/plugins.json"), PluginSource::Project);
}

#[test]
fn project_entry_replaces_user_entry_of_same_name() {
    let store = PluginConfigStore::new("/w", None);
    let user = PluginConfigFile { plugins: vec![entry("b", "1", true), entry("a", "1", true)] };
    let project = PluginConfigFile { plugins: vec![entry("a", "2", false)] };
    let listed = store.list_entries(&user, &project);
    let names: Vec<(&str, &str, PluginSource)> =
        listed.iter().map(|e| (e.plugin.name.as_str(), e.plugin.version.as_str(), e.source)).collect();
    assert_eq!(names, vec![("a", "2", PluginSource::Project), ("b", "1", PluginSource::User)]);
}

#[test]
fn upsert_remove_and_enable() {
    let store = PluginConfigStore::new("/w", None);
    let mut file = PluginConfigFile::empty();
    store.upsert(&mut file, entry("zeta", "1", true));
    store.upsert(&mut file, entry("alpha", "1", true));
    store.upsert(&mut file, entry("zeta", "2", true));
    let names: Vec<(&str, &str)> = file.plugins.iter().map(|p| (p.name.as_str(), p.version.as_str())).collect();
    assert_eq!(names, vec![("alpha", "1"), ("zeta", "2")]);

    store.set_enabled(&mut file, "zeta", false).unwrap();
    assert!(!file.plugins[1].enabled);
    store.remove(&mut file, "alpha").unwrap();
    assert_eq!(file.plugins.len(), 1);

    match store.remove(&mut file, "alpha") {
        Err(e @ PluginConfigError::NotFound(_)) => assert_eq!(e.message(), "plugin not found: alpha"),
        _ => panic!("expected not found"),
    }
    assert!(store.set_enabled(&mut file, "nope", true).is_err());
    assert!(default_true());
    assert_eq!(PluginSource::Project.label(), "project");
}

#[test]
fn configured_fields_fall_back() {
    assert_eq!(normalized_version("  1.2 "), Some("1.2".to_string()));
    assert_eq!(normalized_version("   "), None);
    assert_eq!(configured_description(" "), "Configured plugin entry");
    assert_eq!(configured_description(" d "), "d");
    assert_eq!(configured_source_label("", PluginSource::User), "user");
    assert_eq!(configured_source_label(" git:x ", PluginSource::User), "git:x");
    assert_eq!(configured_kind(" MCP "), ConfiguredKind::Mcp);
    assert_eq!(configured_kind("builtin"), ConfiguredKind::Builtin);
    assert_eq!(configured_kind("other"), ConfiguredKind::Configured);
}

#[test]
fn plugin_search_matches_any_field_case_insensitively() {
    let mut r = row("Linter", "configured", "user");
    assert!(plugin_matches(&r, "lint"));
    assert!(plugin_matches(&r, "USER"));
    assert!(!plugin_matches(&r, "docker"));
    r.tags = Some(vec!["Docker".to_string()]);
    assert!(plugin_matches(&r, "dock"));
}

#[test]
fn listing_is_sorted_by_name_without_repeats() {
    let rows = vec![
        row("b", "mcp", "user"),
        row("a", "mcp", "user"),
        row("b", "mcp", "user"),
        row("b", "builtin", "user"),
    ];
    let merged = merge_plugin_entries(rows);
    let keys: Vec<(&str, &str)> = merged.iter().map(|e| (e.name.as_str(), e.kind.as_str())).collect();
    assert_eq!(keys, vec![("a", "mcp"), ("b", "mcp"), ("b", "builtin")]);
}

#[test]
fn plugin_command_lines() {
    let (global, cmd) = parse_plugin_command("/plugin install foo -g");
    assert!(global);
    assert!(matches!(cmd, PluginCommand::Install(ref n) if n == "foo"));
    let (global, cmd) = parse_plugin_command("/plugin");
    assert!(!global);
    assert!(matches!(cmd, PluginCommand::List));
    let (_, cmd) = parse_plugin_command("/plugin remove");
    assert!(matches!(cmd, PluginCommand::Usage(ref u) if u == "用法: /plugin remove <name> [--global|-g]"));
    let (_, cmd) = parse_plugin_command("/plugin frobnicate");
    assert!(matches!(cmd, PluginCommand::Usage(ref u) if u.starts_with("用法: /plugin list|search")));
    let (global, cmd) = parse_plugin_command("/plugin disable x --global");
    assert!(global);
    assert!(matches!(cmd, PluginCommand::Disable(ref n) if n == "x"));
}

#[test]
fn plugin_details_show_version_and_tags_when_present() {
    let mut r = row("lint", "wasm", "project");
    assert_eq!(
        plugin_detail_text(&r),
        "Name: lint\nDescription: lint plugin\nKind: wasm\nSource: project\nEnabled: yes"
    );
    r.enabled = false;
    r.version = Some("1.2.0".to_string());
    r.tags = Some(vec!["style".to_string(), "rust".to_string()]);
    assert_eq!(
        plugin_detail_text(&r),
        "Name: lint\nDescription: lint plugin\nKind: wasm\nSource: project\nEnabled: no\nVersion: 1.2.0\nTags: style, rust"
    );
    r.tags = Some(Vec::new());
    assert!(!plugin_detail_text(&r).contains("Tags"));
}

#[test]
fn plugin_search_results_list_local_then_remote_hits() {
    assert_eq!(search_results_text(&Vec::new(), &Vec::new()), None);
    let remote = vec![RemotePlugin {
        name: "fmt".to_string(),
        description: "formats".to_string(),
        author: "ann".to_string(),
        version: "0.3".to_string(),
    }];
    assert_eq!(
        search_results_text(&vec![row("lint", "wasm", "user")], &remote).unwrap(),
        "插件搜索结果:\n- lint [wasm:user]\n  lint plugin\n- fmt [remote:skillhub]\n  formats\n  ann / v0.3"
    );
}

use sacode_cli::provider_picker::{
    login_api_key_step, login_base_url_step, parse_provider_remove, parse_provider_rename, removed_options,
    renamed_options, LoginError,
};

fn names(v: &[&str]) -> Vec<String> {
    v.iter().map(|s| s.to_string()).collect()
}

#[test]
fn login_steps() {
    assert_eq!(
        login_base_url_step("  ds  https://api.deepseek.com  ", None),
        Ok(("ds".to_string(), "https://api.deepseek.com".to_string()))
    );
    assert_eq!(
        login_base_url_step("https://x/v1", Some("mine")),
        Ok(("mine".to_string(), "https://x/v1".to_string()))
    );
    assert_eq!(login_base_url_step("https://x/v1", None), Ok(("default".to_string(), "https://x/v1".to_string())));
    assert_eq!(login_base_url_step("   ", Some("p")), Err(LoginError::EmptyBaseUrl));
    assert_eq!(login_base_url_step("x", Some("")), Err(LoginError::EmptyName));
    assert_eq!(LoginError::EmptyName.message(), "Provider 名称不能为空。");
    assert_eq!(login_api_key_step("  sk \n"), Ok("sk".to_string()));
    assert_eq!(login_api_key_step(" "), Err(LoginError::EmptyApiKey));
    assert_eq!(LoginError::EmptyApiKey.message(), "API Key 不能为空。");
}

#[test]
fn picker_after_rename_and_removal() {
    let options = names(&["alpha", "beta", "gamma"]);
    assert_eq!(renamed_options(&options, 0, "zeta"), (names(&["beta", "gamma", "zeta"]), 2));
    assert_eq!(renamed_options(&options, 2, "aaa"), (names(&["aaa", "alpha", "beta"]), 0));
    assert_eq!(removed_options(&options, 2, "gamma"), (names(&["alpha", "beta"]), 1, false));
    assert_eq!(removed_options(&options, 0, "beta"), (names(&["alpha", "gamma"]), 0, false));
    assert_eq!(removed_options(&names(&["only"]), 0, "only"), (Vec::new(), 0, true));
}

#[test]
fn provider_rename_and_remove_lines() {
    assert_eq!(parse_provider_rename("/provider-rename a b"), Some(("a".to_string(), "b".to_string())));
    assert_eq!(parse_provider_rename("/provider-rename a"), None);
    assert_eq!(parse_provider_rename("/provider-rename a b c"), None);
    assert_eq!(parse_provider_remove("/provider-remove a"), Some("a".to_string()));
    assert_eq!(parse_provider_remove("/provider-remove"), None);
}

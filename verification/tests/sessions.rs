use sacode_cli::sessions::{
    cleared_context_notice, list_sessions, new_session_greeting, new_session_id, session_picker_start, SessionInfo,
};

fn s(id: &str, at: &str) -> SessionInfo {
    SessionInfo { id: id.to_string(), updated_at: at.to_string(), title: format!("t-{}", id) }
}

fn ids(v: &[SessionInfo]) -> Vec<&str> {
    v.iter().map(|x| x.id.as_str()).collect()
}

#[test]
fn sessions_listed_once_newest_first() {
    let user = vec![s("a", "2026-01-02 10:00:00"), s("b", "2026-01-03 09:00:00")];
    let project = vec![s("a", "2026-01-05 00:00:00"), s("c", "2026-01-02 10:00:00"), s("d", "2025-12-31 23:59:59")];
    let listed = list_sessions(&user, &project);
    // The user-level copy of `a` wins; equal times keep their order.
    assert_eq!(ids(&listed), vec!["b", "a", "c", "d"]);
    assert_eq!(listed[1].updated_at, "2026-01-02 10:00:00");
    assert!(list_sessions(&Vec::new(), &Vec::new()).is_empty());
}

#[test]
fn picker_starts_on_the_current_session() {
    let listed = vec![s("x", "1"), s("y", "2"), s("y", "3")];
    assert_eq!(session_picker_start(&listed, "y"), 1);
    assert_eq!(session_picker_start(&listed, "nope"), 0);
}

#[test]
fn new_and_cleared_session_texts() {
    assert_eq!(new_session_id("20260101120000"), "session-20260101120000");
    assert!(new_session_greeting().starts_with("SaCode - 新会话"));
    assert_eq!(cleared_context_notice(), "当前会话上下文已清空。");
}

use oqto::history::{
    filter_chat_history, get_session, group_chat_history, is_session_file_name, list_sessions,
    list_sessions_for_workspace, list_sessions_grouped, sort_by_recency, ChatHistoryQuery,
    ChatSession, SessionInfo, SessionTime,
};

fn info(id: &str, dir: Option<&str>, parent: Option<&str>, updated: i64) -> SessionInfo {
    SessionInfo {
        id: id.to_string(),
        version: Some("1".to_string()),
        title: Some(format!("t-{id}")),
        parent_id: parent.map(|p| p.to_string()),
        directory: dir.map(|d| d.to_string()),
        project_id: None,
        time: SessionTime { created: 1, updated },
    }
}

fn sessions() -> Vec<ChatSession> {
    list_sessions(vec![
        (info("a", Some("/w/one"), None, 10), "/s/a.json".to_string()),
        (info("b", Some("/w/two"), None, 30), "/s/b.json".to_string()),
        (info("c", Some("/w/one"), Some("a"), 20), "/s/c.json".to_string()),
        (info("d", None, None, 20), "/s/d.json".to_string()),
    ])
}

fn ids(v: &[ChatSession]) -> Vec<String> {
    v.iter().map(|s| s.id.clone()).collect()
}

#[test]
fn sessions_listed_most_recent_first_ties_in_order() {
    let s = sessions();
    assert_eq!(ids(&s), vec!["b", "c", "d", "a"]);
    let d = &s[2];
    assert_eq!(d.workspace_path, "global");
    assert_eq!(d.project_name, "Global");
    assert_eq!(d.source_path.as_deref(), Some("/s/d.json"));
    assert!(s[1].is_child);
    assert_eq!(s[1].project_name, "one");
}

#[test]
fn sorting_is_stable_for_equal_times() {
    let s = sessions();
    let resorted = sort_by_recency(s.clone());
    assert_eq!(ids(&resorted), ids(&s));
}

#[test]
fn history_filters_by_workspace_children_and_limit() {
    let s = sessions();
    let q = ChatHistoryQuery { workspace: None, include_children: false, limit: None };
    assert_eq!(ids(&filter_chat_history(&s, &q)), vec!["b", "d", "a"]);
    let q = ChatHistoryQuery { workspace: Some("/w/one".to_string()), include_children: true, limit: None };
    assert_eq!(ids(&filter_chat_history(&s, &q)), vec!["c", "a"]);
    let q = ChatHistoryQuery { workspace: None, include_children: true, limit: Some(2) };
    assert_eq!(ids(&filter_chat_history(&s, &q)), vec!["b", "c"]);
    let q = ChatHistoryQuery { workspace: None, include_children: true, limit: Some(0) };
    assert!(filter_chat_history(&s, &q).is_empty());
}

#[test]
fn sessions_grouped_by_workspace_in_first_appearance_order() {
    let s = sessions();
    let groups = list_sessions_grouped(&s);
    let names: Vec<&str> = groups.iter().map(|g| g.workspace_path.as_str()).collect();
    assert_eq!(names, vec!["/w/two", "/w/one", "global"]);
    assert_eq!(ids(&groups[1].sessions), vec!["c", "a"]);
    assert_eq!(ids(&list_sessions_for_workspace(&s, "/w/one")), vec!["c", "a"]);
}

#[test]
fn grouped_history_drops_empty_groups_and_orders_by_recency() {
    let s = list_sessions(vec![
        (info("x", Some("/w/old"), None, 5), "/s/x.json".to_string()),
        (info("y", Some("/w/kids"), Some("x"), 50), "/s/y.json".to_string()),
        (info("z", Some("/w/new"), None, 40), "/s/z.json".to_string()),
    ]);
    let groups = list_sessions_grouped(&s);
    let q = ChatHistoryQuery { workspace: None, include_children: false, limit: None };
    let out = group_chat_history(&groups, &q);
    let names: Vec<&str> = out.iter().map(|g| g.workspace_path.as_str()).collect();
    assert_eq!(names, vec!["/w/new", "/w/old"]);
    assert_eq!(out[0].project_name, "new");
    let q = ChatHistoryQuery { workspace: None, include_children: true, limit: Some(1) };
    let out = group_chat_history(&groups, &q);
    let names: Vec<&str> = out.iter().map(|g| g.workspace_path.as_str()).collect();
    assert_eq!(names, vec!["/w/kids", "/w/new", "/w/old"]);
}

#[test]
fn single_session_lookup() {
    let s = sessions();
    assert_eq!(get_session(&s, "c").unwrap().title.as_deref(), Some("t-c"));
    assert!(get_session(&s, "nope").is_none());
}

#[test]
fn session_file_names() {
    assert!(is_session_file_name("ses_abc.json"));
    assert!(!is_session_file_name("msg_abc.json"));
    assert!(!is_session_file_name("ses_abc.json.bak"));
}

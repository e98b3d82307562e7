use koid::history::{message_from_input, messages_to_delete, new_session_title, new_session_workspace, search_pattern};
use koid::models::MessageInput;

#[test]
fn delete_from_removes_the_message_and_all_after() {
    let ids: Vec<String> = ["a", "b", "c", "d"].iter().map(|s| s.to_string()).collect();
    assert_eq!(messages_to_delete(&ids, "c"), Ok(vec!["c".to_string(), "d".to_string()]));
    assert_eq!(messages_to_delete(&ids, "a").unwrap().len(), 4);
    assert_eq!(messages_to_delete(&ids, "z"), Err("消息不存在: z".to_string()));
}

#[test]
fn search_pattern_wraps_trimmed_query() {
    assert_eq!(search_pattern("  rust "), Some("%rust%".to_string()));
    assert_eq!(search_pattern("   "), None);
    assert_eq!(search_pattern(""), None);
}

#[test]
fn new_session_defaults() {
    assert_eq!(new_session_title(None), "新对话");
    assert_eq!(new_session_title(Some("T".to_string())), "T");
    assert_eq!(new_session_workspace(None), Some("default".to_string()));
    assert_eq!(new_session_workspace(Some("w".to_string())), Some("w".to_string()));
}

#[test]
fn stored_message_keeps_the_input() {
    let input = MessageInput {
        session_id: "s".to_string(),
        role: "user".to_string(),
        content: "hi".to_string(),
        reasoning: None,
        tool_calls: None,
        tool_results: None,
        tokens_used: Some(3),
        latency_ms: None,
        parent_id: Some("p".to_string()),
    };
    let m = message_from_input(input, "id1".to_string(), 42);
    assert_eq!(m.id, "id1");
    assert_eq!(m.session_id, "s");
    assert_eq!(m.created_at, 42);
    assert_eq!(m.tokens_used, Some(3));
    assert_eq!(m.parent_id.as_deref(), Some("p"));
}

#[test]
fn pending_migrations_run_in_order_up_to_the_newest() {
    use_schema();
}

fn use_schema() {
    assert_eq!(koid::schema::pending_migrations(0), vec![1, 2, 3, 4, 5, 6]);
    assert_eq!(koid::schema::pending_migrations(4), vec![5, 6]);
    assert!(koid::schema::pending_migrations(6).is_empty());
    assert!(koid::schema::pending_migrations(9).is_empty());
}

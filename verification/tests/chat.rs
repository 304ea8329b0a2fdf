use octos_app::chat::{messages_from_history, ChatRole};

#[test]
fn history_keeps_user_and_assistant_rows() {
    let rows = vec![
        ("user".to_string(), "hi".to_string()),
        ("tool".to_string(), "ran".to_string()),
        ("assistant".to_string(), "hello".to_string()),
        ("system".to_string(), "x".to_string()),
    ];
    let m = messages_from_history(&rows);
    assert_eq!(m.len(), 2);
    assert_eq!((m[0].role, m[0].text.as_str()), (ChatRole::User, "hi"));
    assert_eq!((m[1].role, m[1].text.as_str()), (ChatRole::Assistant, "hello"));
}

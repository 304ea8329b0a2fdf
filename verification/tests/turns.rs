use octos_app::turns::{rpc_error_event, session_open_event, AgentEvent, Notification, StopReason, TurnTracker};

fn tracker() -> TurnTracker {
    let mut t = TurnTracker::new();
    assert!(t.start_turn(1, 100, Some("local:a".to_string())));
    assert!(!t.start_turn(2, 200, None));
    t
}

#[test]
fn deltas_reach_their_prompt() {
    let mut t = tracker();
    match t.translate_notification(Notification::MessageDelta { turn_id: 100, text: "hi".to_string() }) {
        Some(AgentEvent::TextDelta { prompt_id, text }) => assert_eq!((prompt_id, text.as_str()), (1, "hi")),
        _ => panic!("expected a text delta"),
    }
    match t.translate_notification(Notification::ReasoningDelta { turn_id: 200, text: "hm".to_string() }) {
        Some(AgentEvent::ThinkingDelta { prompt_id, .. }) => assert_eq!(prompt_id, 2),
        _ => panic!("expected a thinking delta"),
    }
    assert!(t
        .translate_notification(Notification::MessageDelta { turn_id: 999, text: "x".to_string() })
        .is_none());
    assert!(t.translate_notification(Notification::Other).is_none());
}

#[test]
fn tool_calls_default_to_empty_object() {
    let mut t = tracker();
    match t.translate_notification(Notification::ToolStarted {
        turn_id: 100,
        tool_call_id: "c1".to_string(),
        tool_name: "grep".to_string(),
        arguments: None,
    }) {
        Some(AgentEvent::ToolRequest { prompt_id, tool_use_id, tool_name, tool_input }) => {
            assert_eq!(prompt_id, 1);
            assert_eq!(tool_use_id, "c1");
            assert_eq!(tool_name, "grep");
            assert_eq!(tool_input, "{}");
        }
        _ => panic!("expected a tool request"),
    }
}

#[test]
fn finished_turns_are_forgotten() {
    let mut t = tracker();
    match t.translate_notification(Notification::TurnCompleted { turn_id: 100 }) {
        Some(AgentEvent::TurnComplete { prompt_id, stop_reason }) => {
            assert_eq!((prompt_id, stop_reason), (1, StopReason::EndTurn))
        }
        _ => panic!("expected completion"),
    }
    assert!(t.cancel_target(1).is_none());
    assert!(t
        .translate_notification(Notification::MessageDelta { turn_id: 100, text: "late".to_string() })
        .is_none());
    match t.translate_notification(Notification::TurnError {
        turn_id: 200,
        code: "rate_limited".to_string(),
        message: "slow down".to_string(),
    }) {
        Some(AgentEvent::PromptError { prompt_id, error }) => {
            assert_eq!(prompt_id, 2);
            assert_eq!(error, "rate_limited: slow down");
        }
        _ => panic!("expected an error"),
    }
    assert!(t.turn_ids.is_empty() && t.prompt_ids.is_empty() && t.prompt_sessions.is_empty());
}

#[test]
fn cancel_needs_session_and_turn() {
    let t = tracker();
    assert_eq!(t.cancel_target(1), Some(("local:a".to_string(), 100)));
    assert_eq!(t.cancel_target(2), None);
    assert_eq!(t.cancel_target(3), None);
}

#[test]
fn persisted_reply_is_authoritative() {
    let mut t = tracker();
    match t.translate_notification(Notification::MessagePersisted {
        turn_id: Some(100),
        role: "assistant".to_string(),
        content: Some("final".to_string()),
    }) {
        Some(AgentEvent::TextAuthoritative { prompt_id, text }) => assert_eq!((prompt_id, text.as_str()), (1, "final")),
        _ => panic!("expected authoritative text"),
    }
}

#[test]
fn session_open_replies() {
    let mut ready = std::collections::HashSet::new();
    match session_open_event(Some(7), &mut ready) {
        Some(AgentEvent::SessionReady { session_id }) => assert_eq!(session_id, 7),
        _ => panic!("a mapped session becomes ready"),
    }
    assert!(ready.contains(&7));
    assert!(session_open_event(None, &mut ready).is_none());
    assert_eq!(ready.len(), 1);
}

#[test]
fn rpc_errors_are_routed() {
    match rpc_error_event("session/open", "no such profile", -32602, Some(3), Some(9)) {
        (Some(AgentEvent::SessionError { session_id, error }), msg) => {
            assert_eq!(session_id, 3);
            assert_eq!(error, "session/open: no such profile (-32602)");
            assert_eq!(msg, error);
        }
        _ => panic!("a failed open goes to the opening session"),
    }
    match rpc_error_event("turn/start", "busy", 5, Some(3), Some(9)) {
        (Some(AgentEvent::PromptError { prompt_id, error }), _) => {
            assert_eq!((prompt_id, error.as_str()), (9, "turn/start: busy (5)"))
        }
        _ => panic!("other errors go to a prompt in flight"),
    }
    match rpc_error_event("session/open", "x", 1, None, Some(4)) {
        (Some(AgentEvent::PromptError { prompt_id, .. }), _) => assert_eq!(prompt_id, 4),
        _ => panic!("no opening session: the prompt takes it"),
    }
    let (ev, msg) = rpc_error_event("task/read", "gone", 2, None, None);
    assert!(ev.is_none());
    assert_eq!(msg, "task/read: gone (2)");
}

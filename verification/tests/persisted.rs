use std::collections::HashMap;

use octos_app::persisted::translate_persisted_message;

#[test]
fn persisted_assistant_content_becomes_authoritative_text() {
    let turn_id = 11u64;
    let prompt_id = 42u64;
    let prompt_ids = HashMap::from([(turn_id, prompt_id)]);
    let events = translate_persisted_message(
        &prompt_ids,
        "assistant",
        Some(turn_id),
        Some("complete card".to_string()),
    );
    assert_eq!(events.len(), 1);
    assert_eq!(events[0].prompt_id, prompt_id);
    assert_eq!(events[0].text, "complete card");
}

#[test]
fn persisted_non_assistant_or_incomplete_event_is_ignored() {
    let turn_id = 11u64;
    let prompt_ids = HashMap::from([(turn_id, 42u64)]);
    assert!(translate_persisted_message(&prompt_ids, "user", Some(turn_id), Some("prompt".to_string()))
        .is_empty());
    assert!(translate_persisted_message(&prompt_ids, "assistant", Some(turn_id), None).is_empty());
    assert!(translate_persisted_message(&prompt_ids, "assistant", None, Some("orphan".to_string()))
        .is_empty());
}

#[test]
fn persisted_message_of_unknown_turn_is_ignored() {
    let prompt_ids = HashMap::from([(1u64, 2u64)]);
    assert!(translate_persisted_message(&prompt_ids, "assistant", Some(9), Some("x".to_string()))
        .is_empty());
}

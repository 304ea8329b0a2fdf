use octos_app::cards::CardState;
use octos_app::notify::{
    apply_counter_action, counter_value, counter_would_overflow, decode_card_notify, format_i64,
    notify_action, parse_i64, parse_usize, CounterAction,
};

#[test]
fn integers_parse_like_std() {
    for s in ["0", "42", "+7", "-7", "", "+", "-", "1x", "9223372036854775807", "-9223372036854775808", "9223372036854775808", " 1"] {
        assert_eq!(parse_i64(s), s.parse::<i64>().ok(), "{s:?}");
    }
    for s in ["0", "12", "+3", "-3", "", "18446744073709551616", "007"] {
        assert_eq!(parse_usize(s), s.parse::<usize>().ok(), "{s:?}");
    }
    for n in [0i64, 9, -1, 1234, i64::MIN, i64::MAX] {
        assert_eq!(format_i64(n), n.to_string());
    }
}

#[test]
fn event_ids_and_payloads() {
    let n = decode_card_notify("3:INC", "{\"key\":\"likes\"}");
    assert_eq!(n.card_id, Some(3));
    assert_eq!(n.event, "inc");
    assert_eq!(n.key, "likes");
    assert_eq!(n.value, None);
    let m = decode_card_notify("set", "not json");
    assert_eq!(m.card_id, None);
    assert_eq!(m.key, "count");
    let v = decode_card_notify("x:Set", "{\"key\":\"mood\",\"value\":\"happy\"}");
    assert_eq!(v.card_id, None);
    assert_eq!(v.event, "set");
    assert_eq!(v.value.as_deref(), Some("happy"));
}

#[test]
fn event_names_pick_actions() {
    assert_eq!(notify_action("increment"), CounterAction::Inc);
    assert_eq!(notify_action("plus_one"), CounterAction::Inc);
    assert_eq!(notify_action("minus"), CounterAction::Dec);
    assert_eq!(notify_action("reset"), CounterAction::Reset);
    assert_eq!(notify_action("clear_all"), CounterAction::Reset);
    assert_eq!(notify_action("set"), CounterAction::SetValue);
    assert_eq!(notify_action("settings"), CounterAction::SetValue);
    assert_eq!(notify_action("tap"), CounterAction::Ignore);
}

#[test]
fn counters_move_and_values_store() {
    let mut card = CardState::new();
    assert!(apply_counter_action(&mut card, "count".to_string(), CounterAction::Inc, None));
    assert!(apply_counter_action(&mut card, "count".to_string(), CounterAction::Inc, None));
    assert_eq!(card.get("count").map(String::as_str), Some("2"));
    assert!(apply_counter_action(&mut card, "count".to_string(), CounterAction::Dec, None));
    assert!(apply_counter_action(&mut card, "count".to_string(), CounterAction::Dec, None));
    assert!(apply_counter_action(&mut card, "count".to_string(), CounterAction::Dec, None));
    assert_eq!(counter_value(&card, "count"), -1);
    assert!(apply_counter_action(&mut card, "count".to_string(), CounterAction::Reset, None));
    assert_eq!(card.get("count").map(String::as_str), Some("0"));
    assert!(!apply_counter_action(&mut card, "mood".to_string(), CounterAction::SetValue, None));
    assert_eq!(card.get("mood"), None);
    assert!(apply_counter_action(&mut card, "mood".to_string(), CounterAction::SetValue, Some("ok".to_string())));
    assert_eq!(card.get("mood").map(String::as_str), Some("ok"));
    assert_eq!(counter_value(&card, "mood"), 0);
    assert!(!apply_counter_action(&mut card, "x".to_string(), CounterAction::Ignore, None));
    card.insert("big".to_string(), i64::MAX.to_string());
    assert!(counter_would_overflow(&card, "big", CounterAction::Inc));
    assert!(!counter_would_overflow(&card, "big", CounterAction::Dec));
}

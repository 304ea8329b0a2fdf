use octos_app::cards::{
    card_root_height, defer_unclosed_runsplash, extract_card_name, extract_runsplash_body,
    neutralize_bare_view, strip_card_name_line, substitute_state_keys, tag_notify_calls, CardState,
};

#[test]
fn notify_calls_are_tagged() {
    assert_eq!(
        tag_notify_calls("on_click: || agent.notify(\"inc\", {})", 3),
        "on_click: || agent.notify(\"3:inc\", {})"
    );
    assert_eq!(tag_notify_calls("agent.notify('set', {})", 12), "agent.notify('12:set', {})");
    assert_eq!(tag_notify_calls("no calls", 1), "no calls");
}

#[test]
fn bare_views_are_replaced() {
    assert_eq!(
        neutralize_bare_view("View{ a } RoundedView{ b }"),
        "RoundedView{new_batch: true draw_bg.color: #00000000 draw_bg.border_radius: 0.0  a } RoundedView{ b }"
    );
    assert_eq!(neutralize_bare_view("SolidView{}"), "SolidView{}");
}

#[test]
fn state_keys_are_substituted() {
    let mut st = CardState::new();
    st.insert("count".to_string(), "4".to_string());
    assert_eq!(substitute_state_keys("n={{state.count}} m={{state. mood }}", &st), "n=4 m=0");
    assert_eq!(substitute_state_keys("m={{ state.mood }}", &st), "m={{ state.mood }}");
    assert_eq!(substitute_state_keys("open {{state.count", &st), "open {{state.count");
    st.insert("count".to_string(), "5".to_string());
    assert_eq!(st.get("count").map(String::as_str), Some("5"));
    assert_eq!(st.get("other"), None);
}

#[test]
fn card_names() {
    assert_eq!(extract_card_name("// name: Weather SF!\nRoundedView{}").as_deref(), Some("weather-sf"));
    assert_eq!(extract_card_name("RoundedView{}\n// name: late"), None);
    assert_eq!(strip_card_name_line("// name: x\nRoundedView{}"), "RoundedView{}");
    assert_eq!(strip_card_name_line("RoundedView{}"), "RoundedView{}");
}

#[test]
fn root_height() {
    assert_eq!(card_root_height("width: Fill height: 120 x height: 1500"), Some(1500));
    assert_eq!(card_root_height("height: Fill"), None);
}

#[test]
fn runsplash_blocks() {
    let text = "intro\n```runsplash\nRoundedView{}\n```\nafter";
    assert_eq!(extract_runsplash_body(text), Some("RoundedView{}"));
    assert_eq!(defer_unclosed_runsplash(text), text);
    assert_eq!(
        defer_unclosed_runsplash("intro\n```runsplash\nRoundedView{"),
        "intro\n\u{1F6E0} Building app UI\u{2026}"
    );
    assert_eq!(extract_runsplash_body("no block"), None);
}

use octos_app::sessions::{project_item, short_id};

#[test]
fn short_ids() {
    assert_eq!(short_id("abc"), "Session abc");
    assert_eq!(short_id("12345678"), "Session 12345678");
    assert_eq!(short_id("123456789abc"), "Session 12345678…");
    assert_eq!(short_id("ñññññ"), "Session ññññ…");
}

#[test]
fn projected_titles_and_profiles() {
    let r = project_item("0123456789".to_string(), None, Some(5), None, "me", 99);
    assert_eq!(r.title, "Session 01234567…");
    assert_eq!(r.profile_id, "me");
    assert_eq!(r.updated_at_ms, 5);
    let t = project_item("x".to_string(), Some("Trip".to_string()), Some(1), Some("p".to_string()), "me", 99);
    assert_eq!((t.title.as_str(), t.profile_id.as_str()), ("Trip", "p"));
    let e = project_item("abc".to_string(), Some(String::new()), None, None, "me", 1_700_000_000_000);
    assert_eq!(e.title, "Session abc");
    assert_eq!(e.updated_at_ms, 1_700_000_000_000);
}

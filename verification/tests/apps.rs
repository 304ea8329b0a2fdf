use octos_app::card_lint::{lint, repair_prompt, LintRule};
use octos_app::apps::{complete_reply, ReplyOutcome, compose_step, title_of_app_id, AppRecord, AppRegistry, ComposeStep, SwitchOutcome};

fn registry() -> AppRegistry {
    let mut r = AppRegistry::new();
    r.apps.push(AppRecord::with_domain(10, "Weather".to_string(), "weather"));
    r.apps.push(AppRecord::with_domain(11, "Stock".to_string(), "stock"));
    r.apps.push(AppRecord::new(12, "Chat".to_string()));
    r
}

#[test]
fn titles_of_composed_apps() {
    assert_eq!(title_of_app_id("weather-activity"), "Weather Activity");
    assert_eq!(title_of_app_id("--news--x-"), "News X");
    assert_eq!(title_of_app_id("9am"), "9am");
    assert_eq!(title_of_app_id(""), "");
}

#[test]
fn routing_activates_the_domain_app() {
    let mut r = registry();
    assert_eq!(r.app_for_domain("stock"), Some(1));
    assert_eq!(r.app_for_domain("news"), None);
    r.apps[1].repair_attempted = true;
    r.activate_for_request(1, 77);
    assert_eq!(r.foreground, 1);
    assert_eq!(r.fg_session(), Some(11));
    assert_eq!(r.apps[1].current_prompt, Some(77));
    assert!(!r.apps[1].repair_attempted);
    assert_eq!(r.app_of_prompt(77), Some(1));
    assert_eq!(r.fg_prompt_take(), Some(77));
    assert_eq!(r.app_of_prompt(77), None);
    r.set_fg_prompt(Some(5));
    assert_eq!(r.apps[1].current_prompt, Some(5));
}

#[test]
fn compose_decisions() {
    assert_eq!(compose_step(true, false), ComposeStep::RouteExisting);
    assert_eq!(compose_step(false, true), ComposeStep::CreateAgent);
    assert_eq!(compose_step(false, false), ComposeStep::FallBackToWeather);
    let mut r = registry();
    r.add_composed_app(13, "weather-news");
    assert_eq!(r.apps[3].title, "Weather News");
    assert_eq!(r.app_for_domain("weather-news"), Some(3));
    assert_eq!(r.foreground, 0);
}

#[test]
fn switching_and_new_apps() {
    let mut r = registry();
    r.apps[2].has_updates = true;
    assert_eq!(r.switch_to_app(5), SwitchOutcome::Ignored);
    assert_eq!(r.switch_to_app(2), SwitchOutcome::Switched { left: 0 });
    assert!(!r.apps[2].has_updates);
    assert_eq!(r.switch_to_app(2), SwitchOutcome::SameApp);
    assert_eq!(r.next_app(), Some(0));
    r.open_new_app(20);
    assert_eq!(r.apps[3].title, "App 4");
    assert_eq!(r.foreground, 3);
    r.focus_session(11, "ignored".to_string());
    assert_eq!(r.foreground, 1);
    r.focus_session(30, "Session".to_string());
    assert_eq!(r.foreground, 4);
    assert_eq!(r.apps[4].title, "Session");
    assert_eq!(AppRegistry::new().next_app(), None);
}

#[test]
fn background_apps_are_badged_not_shown() {
    let mut r = registry();
    r.activate_for_request(1, 50);
    r.apps[0].current_prompt = Some(60);
    assert!(r.note_stream_event(50));
    assert!(!r.note_stream_event(60));
    assert!(r.apps[0].has_updates);
    assert!(r.note_stream_event(999));
    assert!(!r.note_turn_complete(60));
    assert_eq!(r.apps[0].current_prompt, None);
    assert!(r.note_turn_complete(50));
    assert_eq!(r.apps[1].current_prompt, Some(50));
    assert!(!r.apps[1].has_updates);
}

#[test]
fn completed_replies_are_stored_discarded_or_repaired() {
    let rules = vec![LintRule { desc: "needs a map".to_string(), pattern: "sys.airmap".to_string(), min: 1, max: None }];
    let mut app = AppRecord::with_domain(10, "Weather".to_string(), "weather");

    assert!(matches!(complete_reply(&mut app, "", &[], Some(&rules)), ReplyOutcome::Empty));
    assert!(!app.repair_attempted);

    match complete_reply(&mut app, "```diagram\nA -> B", &[], Some(&rules)) {
        ReplyOutcome::Discard { status } => {
            assert_eq!(status, "Error: incomplete diagram response discarded; retry")
        }
        _ => panic!("unsafe reply must be discarded"),
    }
    assert!(!app.repair_attempted);

    let card = "```runsplash\nView{ }\n```";
    match complete_reply(&mut app, card, &[], Some(&rules)) {
        ReplyOutcome::Store { repair: Some(p) } => {
            let v = lint("View{ }", &rules);
            assert_eq!(v.len(), 1);
            assert_eq!(p, repair_prompt(&v));
            assert!(p.contains("needs a map"));
        }
        _ => panic!("failing card must carry a repair"),
    }
    assert!(app.repair_attempted);
    assert_eq!(app.session_id, 10);

    // The repair is spent: the next failing card is stored without one.
    assert!(matches!(complete_reply(&mut app, card, &[], Some(&rules)), ReplyOutcome::Store { repair: None }));

    let mut fresh = AppRecord::new(12, "Chat".to_string());
    assert!(matches!(complete_reply(&mut fresh, card, &[], None), ReplyOutcome::Store { repair: None }));
    assert!(matches!(complete_reply(&mut fresh, "plain answer", &[], Some(&rules)), ReplyOutcome::Store { repair: None }));
    assert!(!fresh.repair_attempted);
}

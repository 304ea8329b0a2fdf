use octos_app::prompts::{
    ama_routing_prompt, app_splash_direct_prompt, app_splash_followup, app_splash_prompt,
    app_splash_router_for, route_prompt, PromptRoute, AMA_SYSTEM_PROMPT, APP_SPLASH_ROUTER,
};

#[test]
fn router_prompt_names_the_domain() {
    let p = app_splash_router_for("weather", "rain in Paris?");
    assert!(p.starts_with(APP_SPLASH_ROUTER));
    assert!(p.contains("The AMA routed this request to the weather app — generate a weather card"));
    assert!(p.contains("apps/weather/app.md"));
    assert!(p.ends_with("\n\nUser request: rain in Paris?"));
}

#[test]
fn splash_prompts_carry_the_request() {
    let first = app_splash_prompt("MANUAL", "a clock");
    assert!(first.starts_with("You are a UI-generation agent."));
    assert!(first.ends_with("\n\nMANUAL\n\nUser request: a clock"));
    assert!(first.contains("Root{}"));
    let follow = app_splash_followup("bigger font");
    assert!(follow.starts_with("Respond with EXACTLY ONE ```runsplash"));
    assert!(follow.ends_with("User request: bigger font"));
    assert!(follow.contains("{{state.<key>}}"));
}

#[test]
fn routing_decision() {
    match route_prompt(true, true, "hi") {
        PromptRoute::Router(m) => {
            assert_eq!(m, format!("{AMA_SYSTEM_PROMPT}\n\nUser message: hi\n\nYour one-line routing decision:"));
            assert_eq!(m, ama_routing_prompt("hi"));
        }
        _ => panic!("expected the router"),
    }
    match route_prompt(true, false, "hi") {
        PromptRoute::Direct(m) => assert_eq!(m, app_splash_direct_prompt("hi")),
        _ => panic!("expected direct"),
    }
    match route_prompt(false, true, "hi") {
        PromptRoute::Direct(m) => assert_eq!(m, "hi"),
        _ => panic!("expected direct"),
    }
}

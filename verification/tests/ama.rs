use octos_app::ama::{parse_ama_decision, AmaAction};

fn known(ds: &[&str]) -> Vec<String> {
    ds.iter().map(|d| d.to_string()).collect()
}

#[test]
fn routes_to_a_running_agent() {
    let d = parse_ama_decision("thinking...\n\nweather — bare place name\n\n", &known(&["weather"]));
    assert_eq!(d.decision, "weather — bare place name");
    assert!(matches!(d.action, AmaAction::Route(ref id) if id == "weather"));
}

#[test]
fn composes_new_apps() {
    let d = parse_ama_decision("compose Weather-News — combined view", &known(&["weather"]));
    assert!(matches!(d.action, AmaAction::Compose(ref id) if id == "weather-news"));
    let bare = parse_ama_decision("compose", &known(&[]));
    assert!(matches!(bare.action, AmaAction::Route(ref id) if id == "compose"));
}

#[test]
fn unknown_ids_compose_on_demand_but_none_routes() {
    let d = parse_ama_decision("stock — ticker", &known(&["weather"]));
    assert!(matches!(d.action, AmaAction::Compose(ref id) if id == "stock"));
    let n = parse_ama_decision("none — no domain", &known(&["weather"]));
    assert!(matches!(n.action, AmaAction::Route(ref id) if id == "none"));
    let odd = parse_ama_decision("we@ther — odd", &known(&[]));
    assert!(matches!(odd.action, AmaAction::Route(ref id) if id == "we@ther"));
}

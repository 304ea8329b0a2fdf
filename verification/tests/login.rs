use octos_app::login::{
    host_from_url, parse_provision_string, provision_server_config, validate_server_url,
    ServerConfig,
};

#[test]
fn validate_server_url_accepts_https() {
    let u = validate_server_url("https://octos.example.com").unwrap();
    assert_eq!(u.scheme(), "https");
    assert_eq!(host_from_url(&u), "octos.example.com");
}

#[test]
fn validate_server_url_rejects_empty() {
    assert!(validate_server_url("").is_err());
    assert!(validate_server_url("   ").is_err());
}

#[test]
fn validate_server_url_rejects_unknown_scheme() {
    let e = validate_server_url("ftp://octos.example.com").unwrap_err();
    assert!(e.contains("scheme"));
}

#[test]
fn validate_server_url_rejects_garbage() {
    assert!(validate_server_url("not a url").is_err());
}

#[test]
fn server_config_round_trips_via_serde_json() {
    let cfg = ServerConfig {
        server_url: "https://octos.example.com".to_string(),
        profile_id: "acme".to_string(),
    };
    let mut obj = serde_json::Map::new();
    obj.insert("server_url".to_string(), serde_json::Value::String(cfg.server_url.clone()));
    obj.insert("profile_id".to_string(), serde_json::Value::String(cfg.profile_id.clone()));
    let bytes = serde_json::to_vec(&serde_json::Value::Object(obj)).unwrap();
    let v: serde_json::Value = serde_json::from_slice(&bytes).unwrap();
    let back = ServerConfig {
        server_url: v["server_url"].as_str().unwrap().to_string(),
        profile_id: v["profile_id"].as_str().unwrap().to_string(),
    };
    assert_eq!(back.server_url, cfg.server_url);
    assert_eq!(back.profile_id, cfg.profile_id);
}

#[test]
fn validate_server_url_trims_and_accepts_http() {
    let u = validate_server_url("  http://10.0.0.2:8080/  ").unwrap();
    assert_eq!(u.scheme(), "http");
    assert_eq!(host_from_url(&u), "10.0.0.2");
}

#[test]
fn validate_server_url_messages() {
    assert_eq!(validate_server_url("").unwrap_err(), "Server URL is required");
    let e = validate_server_url("ftp://octos.example.com").unwrap_err();
    assert!(e.contains("ftp"));
}

#[test]
fn provisioning_string_decodes() {
    let p = parse_provision_string("https://octos.example.com|acme|tok123").unwrap();
    assert_eq!(p.profile, "acme");
    assert_eq!(p.token, "tok123");
    let cfg = provision_server_config(&p);
    assert_eq!(cfg.profile_id, "acme");
    assert!(cfg.server_url.starts_with("https://octos.example.com"));
}

#[test]
fn provisioning_string_rejects_bad_input() {
    assert!(parse_provision_string("https://octos.example.com").is_err());
    assert!(parse_provision_string("not a url|acme|t").is_err());
}

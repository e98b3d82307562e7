use koid::discovery::{discovery_error, merge_with_local, models_url_candidates, parse_models_json};
use koid::json::parse_json;
use koid::models::Model;

#[test]
fn models_url_candidates_handle_v1_and_bare() {
    assert_eq!(
        models_url_candidates("https://api.openai.com/v1"),
        vec![
            "https://api.openai.com/v1/models".to_string(),
            "https://api.openai.com/v1/models".to_string()
        ]
    );
    assert_eq!(
        models_url_candidates("https://gateway.example.com"),
        vec![
            "https://gateway.example.com/v1/models".to_string(),
            "https://gateway.example.com/models".to_string()
        ]
    );
    assert_eq!(
        models_url_candidates("https://api.anthropic.com/")[0],
        "https://api.anthropic.com/v1/models".to_string()
    );
}

#[test]
fn parse_models_json_openai_and_anthropic() {
    let openai = parse_json(
        r#"{"object":"list","data":[{"id":"gpt-4o","object":"model"},{"id":"gpt-4o-mini","object":"model"}]}"#,
    )
    .unwrap();
    let parsed = parse_models_json(&openai).unwrap();
    assert_eq!(parsed[0].0, "gpt-4o");
    assert_eq!(parsed[0].1, "gpt-4o");

    let anthropic = parse_json(
        r#"{"data":[{"type":"model","id":"sonnet-3-5-20241022","display_name":"Sonnet 3.5"}]}"#,
    )
    .unwrap();
    let parsed = parse_models_json(&anthropic).unwrap();
    assert_eq!(parsed[0].0, "sonnet-3-5-20241022");
    assert_eq!(parsed[0].1, "Sonnet 3.5");
}

#[test]
fn parse_models_json_rejects_empty_or_malformed() {
    assert!(parse_models_json(&parse_json(r#"{"data":[]}"#).unwrap()).is_none());
    assert!(parse_models_json(&parse_json(r#"{"models":[]}"#).unwrap()).is_none());
}

#[test]
fn parse_models_json_refuses_item_without_id_and_blank_display_name_falls_back() {
    // one item without an id refuses the whole list
    let bad = parse_json(r#"{"data":[{"id":"a"},{"name":"b"}]}"#).unwrap();
    assert!(parse_models_json(&bad).is_none());
    let blank = parse_json(r#"{"data":[{"id":"m","display_name":""}]}"#).unwrap();
    assert_eq!(parse_models_json(&blank).unwrap(), vec![("m".to_string(), "m".to_string())]);
}

fn local(model_id: &str, enabled: bool) -> Model {
    Model {
        id: format!("id-{model_id}"),
        provider_id: "p".to_string(),
        model_id: model_id.to_string(),
        display_name: model_id.to_string(),
        context_window: None,
        capabilities: vec![],
        enabled,
    }
}

#[test]
fn merge_keeps_local_enabled_flags() {
    let existing = vec![local("a", true), local("b", false)];
    let raw = vec![
        ("a".to_string(), "A".to_string()),
        ("b".to_string(), "B".to_string()),
        ("c".to_string(), "C".to_string()),
    ];
    let out = merge_with_local(&existing, &raw);
    let flags: Vec<(String, bool)> = out.iter().map(|d| (d.model_id.clone(), d.enabled)).collect();
    assert_eq!(
        flags,
        vec![("a".to_string(), true), ("b".to_string(), false), ("c".to_string(), false)]
    );
    assert_eq!(out[2].display_name, "C");
}

#[test]
fn discovery_error_prefers_status_then_network_error() {
    assert_eq!(discovery_error(Some(401), "nope", &None), "UNAUTHORIZED:HTTP 401 nope");
    assert_eq!(discovery_error(Some(429), "", &None), "RATE_LIMITED:HTTP 429 ");
    assert_eq!(discovery_error(Some(503), "down", &Some("NETWORK:x".to_string())), "SERVER:HTTP 503 down");
    assert_eq!(discovery_error(Some(404), "x", &None), "BAD_REQUEST:HTTP 404 x");
    assert_eq!(discovery_error(None, "", &Some("TIMEOUT:请求超时".to_string())), "TIMEOUT:请求超时");
    assert_eq!(discovery_error(None, "", &None), "服务器未返回可用模型列表");
}

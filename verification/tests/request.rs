use koid::json::{parse_json, to_json_string};
use koid::models::{ChatMessage, ChatRequest};
use koid::request::{anthropic_body, openai_body, response_body};

fn msg(role: &str, content: &str) -> ChatMessage {
    ChatMessage { role: role.to_string(), content: content.to_string(), tool_calls: None, tool_call_id: None, tool_name: None }
}

fn request() -> ChatRequest {
    ChatRequest {
        request_id: "r".to_string(),
        provider_id: "p".to_string(),
        model_id: "m".to_string(),
        messages: vec![msg("user", "hi")],
        temperature: Some(parse_json("0.5").unwrap()),
        top_p: None,
        max_tokens: Some(100),
        system: Some("be brief".to_string()),
        stream: true,
        session_id: None,
        tools: None,
        thinking_level: Some("high".to_string()),
    }
}

fn value(j: &koid::json::Json) -> serde_json::Value {
    serde_json::from_str(&to_json_string(j)).unwrap()
}

#[test]
fn openai_body_for_compatible_endpoints() {
    let v = value(&openai_body(request(), false));
    assert_eq!(v["model"], "m");
    assert_eq!(v["messages"][0]["role"], "system");
    assert_eq!(v["messages"][0]["content"], "be brief");
    assert_eq!(v["messages"][1]["role"], "user");
    assert_eq!(v["temperature"], 0.5);
    assert_eq!(v["max_tokens"], 100);
    assert_eq!(v["reasoning_effort"], "high");
    assert_eq!(v["stream_options"]["include_usage"], true);
    assert!(v.get("top_p").is_none());
}

#[test]
fn openai_body_for_official_reasoning_models() {
    let v = value(&openai_body(request(), true));
    assert_eq!(v["messages"][0]["role"], "developer");
    assert!(v.get("temperature").is_none());
    assert!(v.get("max_tokens").is_none());
    assert_eq!(v["max_completion_tokens"], 100);
}

#[test]
fn anthropic_body_lifts_system_and_thinking() {
    let v = value(&anthropic_body(request(), Some(parse_json("0.5").unwrap())));
    assert_eq!(v["model"], "m");
    assert_eq!(v["system"], "be brief");
    assert_eq!(v["messages"][0]["role"], "user");
    assert_eq!(v["thinking"]["type"], "enabled");
    assert_eq!(v["thinking"]["budget_tokens"], 20480);
    assert_eq!(v["max_tokens"], 21504);
    assert_eq!(v["stream"], true);
}

#[test]
fn response_body_uses_input_and_instructions() {
    let v = value(&response_body(request()));
    assert_eq!(v["model"], "m");
    assert!(v.get("input").is_some());
}

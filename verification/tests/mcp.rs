use koid::json::{parse_json, to_json_string, Json};
use koid::mcp::{
    check_transport, choose_server, initialize_params, match_reply, rpc_notification, rpc_request,
    tool_call_args, tool_output_to_string, RpcReply,
};

fn json(text: &str) -> Json {
    parse_json(text).unwrap()
}

#[test]
fn requests_and_notifications_have_the_jsonrpc_shape() {
    let r = rpc_request(7, "tools/list", json("{}"));
    let v: serde_json::Value = serde_json::from_str(&to_json_string(&r)).unwrap();
    assert_eq!(v["jsonrpc"], "2.0");
    assert_eq!(v["id"], 7);
    assert_eq!(v["method"], "tools/list");
    assert!(v["params"].as_object().unwrap().is_empty());
    let n: serde_json::Value = serde_json::from_str(&to_json_string(&rpc_notification("notifications/initialized"))).unwrap();
    assert_eq!(n["method"], "notifications/initialized");
    assert!(n.get("id").is_none());
    let p: serde_json::Value = serde_json::from_str(&to_json_string(&initialize_params())).unwrap();
    assert_eq!(p["protocolVersion"], "2024-11-05");
    assert_eq!(p["clientInfo"]["name"], "koid");
    assert_eq!(p["clientInfo"]["version"], "0.1.0");
}

#[test]
fn replies_are_matched_by_id() {
    assert!(matches!(match_reply(json(r#"{"id":3,"result":{"ok":true}}"#), 4), RpcReply::Unrelated));
    assert!(matches!(match_reply(json(r#"{"method":"notify"}"#), 4), RpcReply::Unrelated));
    match match_reply(json(r#"{"id":4,"result":{"ok":true}}"#), 4) {
        RpcReply::Result(v) => assert_eq!(to_json_string(&v), r#"{"ok":true}"#),
        other => panic!("unexpected {other:?}"),
    }
    match match_reply(json(r#"{"id":4}"#), 4) {
        RpcReply::Result(Json::Null) => {}
        other => panic!("unexpected {other:?}"),
    }
    match match_reply(json(r#"{"id":4,"error":{"code":-1}}"#), 4) {
        RpcReply::Failed(m) => assert_eq!(m, r#"MCP 错误: {"code":-1}"#),
        other => panic!("unexpected {other:?}"),
    }
}

#[test]
fn tool_output_joins_texts_or_falls_back_to_json() {
    let r = json(r#"{"content":[{"type":"text","text":"a"},{"type":"image"},{"type":"text","text":"b"}]}"#);
    assert_eq!(tool_output_to_string(&r), "ab");
    let r = json(r#"{"content":[]}"#);
    assert_eq!(tool_output_to_string(&r), r#"{"content":[]}"#);
}

#[test]
fn tool_args_blank_means_empty_object() {
    match tool_call_args("  ") {
        Ok(Json::Object(ms)) => assert!(ms.is_empty()),
        other => panic!("unexpected {other:?}"),
    }
    assert!(tool_call_args(r#"{"a":1}"#).is_ok());
    let e = tool_call_args("{nope").unwrap_err();
    assert!(e.starts_with("工具参数不是合法 JSON: "));
}

#[test]
fn server_choice_by_id_then_name() {
    let ids = vec!["s1".to_string(), "s2".to_string()];
    let names = vec![Some("files".to_string()), Some("web".to_string())];
    assert_eq!(choose_server(&ids, &names, Some("s2")), Ok(1));
    assert_eq!(choose_server(&ids, &names, Some("files")), Ok(0));
    assert_eq!(choose_server(&ids, &names, None), Ok(0));
    assert_eq!(choose_server(&ids, &names, Some("x")), Err("MCP 服务器 x 未连接".to_string()));
    assert_eq!(choose_server(&vec![], &vec![], None), Err("没有已连接的 MCP 服务器".to_string()));
    assert!(check_transport("stdio").is_ok());
    assert_eq!(check_transport("sse"), Err("当前仅支持 stdio 传输".to_string()));
}

use koid::json::parse_json;
use koid::models::{ProviderType, TokenUsage};
use koid::stream::{
    feed_stream_chunk, handle_anthropic_line, handle_openai_line, handle_openai_response_line, read_full_answer,
    Delta, ToolAccumulator,
};

/// What a sink received, written as text with `[R]` before each piece of
/// reasoning.
fn sink_text(sink: &[Delta]) -> String {
    let mut s = String::new();
    for d in sink {
        s.push_str(&d.text);
        if let Some(r) = &d.reasoning {
            s.push_str("[R]");
            s.push_str(r);
        }
    }
    s
}

#[test]
fn openai_sse_parses_content_and_usage() {
    let mut sink: Vec<Delta> = Vec::new();
    let mut content = String::new();
    let mut reasoning = String::new();
    let mut usage: Option<TokenUsage> = None;
    let mut tools = ToolAccumulator::default();

    handle_openai_line(
        r#"data: {"choices":[{"delta":{"content":"Hello"}}]}"#,
        &mut content, &mut reasoning, &mut usage, &mut tools, &mut sink,
    );
    handle_openai_line(
        r#"data: {"choices":[{"delta":{"reasoning_content":"think"}}]}"#,
        &mut content, &mut reasoning, &mut usage, &mut tools, &mut sink,
    );
    handle_openai_line(
        r#"data: {"usage":{"prompt_tokens":3,"completion_tokens":5,"total_tokens":8}}"#,
        &mut content, &mut reasoning, &mut usage, &mut tools, &mut sink,
    );
    handle_openai_line("data: [DONE]", &mut content, &mut reasoning, &mut usage, &mut tools, &mut sink);
    handle_openai_line(": keep-alive", &mut content, &mut reasoning, &mut usage, &mut tools, &mut sink);

    assert_eq!(content, "Hello");
    assert_eq!(reasoning, "think");
    assert_eq!(usage.as_ref().map(|u| u.total_tokens), Some(8));
    assert!(sink_text(&sink).contains("[R]think"));
}

#[test]
fn anthropic_sse_parses_text_thinking_and_usage() {
    let mut sink: Vec<Delta> = Vec::new();
    let mut content = String::new();
    let mut reasoning = String::new();
    let mut usage: Option<TokenUsage> = None;
    let mut tools = ToolAccumulator::default();

    handle_anthropic_line(
        r#"data: {"type":"message_start","message":{"usage":{"input_tokens":10}}}"#,
        &mut content, &mut reasoning, &mut usage, &mut tools, &mut sink,
    );
    handle_anthropic_line(
        r#"data: {"type":"content_block_delta","delta":{"type":"thinking_delta","thinking":"let me see"}}"#,
        &mut content, &mut reasoning, &mut usage, &mut tools, &mut sink,
    );
    handle_anthropic_line(
        r#"data: {"type":"content_block_delta","delta":{"type":"text_delta","text":"Hi there"}}"#,
        &mut content, &mut reasoning, &mut usage, &mut tools, &mut sink,
    );
    handle_anthropic_line(
        r#"data: {"type":"message_delta","usage":{"output_tokens":7}}"#,
        &mut content, &mut reasoning, &mut usage, &mut tools, &mut sink,
    );

    assert_eq!(content, "Hi there");
    assert_eq!(reasoning, "let me see");
    let u = usage.unwrap();
    assert_eq!(u.prompt_tokens, 10);
    assert_eq!(u.completion_tokens, 7);
    assert_eq!(u.total_tokens, 17);
}

#[test]
fn openai_sse_accumulates_tool_calls() {
    let mut sink: Vec<Delta> = Vec::new();
    let mut content = String::new();
    let mut reasoning = String::new();
    let mut usage: Option<TokenUsage> = None;
    let mut tools = ToolAccumulator::default();

    handle_openai_line(
        r#"data: {"choices":[{"delta":{"tool_calls":[{"index":0,"id":"call_1","function":{"name":"read_file","arguments":"{\"path\":"}}]}}]}"#,
        &mut content, &mut reasoning, &mut usage, &mut tools, &mut sink,
    );
    handle_openai_line(
        r#"data: {"choices":[{"delta":{"tool_calls":[{"index":0,"function":{"arguments":"\"src/main.ts\"}"}}]}}]}"#,
        &mut content, &mut reasoning, &mut usage, &mut tools, &mut sink,
    );

    let calls = tools.finish();
    assert_eq!(calls.len(), 1);
    assert_eq!(calls[0].name, "read_file");
    assert_eq!(calls[0].arguments, r#"{"path":"src/main.ts"}"#);
}

#[test]
fn anthropic_sse_accumulates_tool_use() {
    let mut sink: Vec<Delta> = Vec::new();
    let mut content = String::new();
    let mut reasoning = String::new();
    let mut usage: Option<TokenUsage> = None;
    let mut tools = ToolAccumulator::default();

    handle_anthropic_line(
        r#"data: {"type":"content_block_start","index":1,"content_block":{"type":"tool_use","id":"toolu_1","name":"list_dir","input":{}}}"#,
        &mut content, &mut reasoning, &mut usage, &mut tools, &mut sink,
    );
    handle_anthropic_line(
        r#"data: {"type":"content_block_delta","index":1,"delta":{"type":"input_json_delta","partial_json":"{\"path\":\"src\"}"}}"#,
        &mut content, &mut reasoning, &mut usage, &mut tools, &mut sink,
    );

    let calls = tools.finish();
    assert_eq!(calls.len(), 1);
    assert_eq!(calls[0].name, "list_dir");
    assert_eq!(calls[0].arguments, r#"{"path":"src"}"#);
}

#[test]
fn reasoning_delta_falls_back_when_earlier_key_is_null() {
    let mut sink: Vec<Delta> = Vec::new();
    let mut content = String::new();
    let mut reasoning = String::new();
    let mut usage: Option<TokenUsage> = None;
    let mut tools = ToolAccumulator::default();

    handle_openai_line(
        r#"data: {"choices":[{"delta":{"reasoning_content":null,"reasoning":"深层思考"}}]}"#,
        &mut content, &mut reasoning, &mut usage, &mut tools, &mut sink,
    );
    handle_openai_line(
        r#"data: {"choices":[{"delta":{"reasoning_content":null,"reasoning":null,"thought":"再想想"}}]}"#,
        &mut content, &mut reasoning, &mut usage, &mut tools, &mut sink,
    );

    assert_eq!(reasoning, "深层思考再想想");
    assert_eq!(content, "");
}

#[test]
fn openai_response_api_sse_parses_delta_and_reasoning() {
    let mut sink: Vec<Delta> = Vec::new();
    let mut content = String::new();
    let mut reasoning = String::new();
    let mut usage: Option<TokenUsage> = None;
    let mut tools = ToolAccumulator::default();

    handle_openai_response_line(
        r#"data: {"type":"response.reasoning.delta","delta":{"text":"思考中..."}}"#,
        &mut content, &mut reasoning, &mut usage, &mut tools, &mut sink,
    );
    handle_openai_response_line(
        r#"data: {"type":"response.output_item.delta","delta":{"text":"你好，世界！"}}"#,
        &mut content, &mut reasoning, &mut usage, &mut tools, &mut sink,
    );
    handle_openai_response_line("data: [DONE]", &mut content, &mut reasoning, &mut usage, &mut tools, &mut sink);

    assert_eq!(reasoning, "思考中...");
    assert_eq!(content, "你好，世界！");
    assert!(sink_text(&sink).contains("你好，世界！"));
}

#[test]
fn chunks_split_anywhere_give_the_same_answer() {
    let text = "data: {\"choices\":[{\"delta\":{\"content\":\"你好\"}}]}\n\ndata: {\"choices\":[{\"delta\":{\"content\":\" world\"}}]}\ndata: [DONE]\n";
    let bytes = text.as_bytes();
    // the whole stream at once
    let mut buf: Vec<u8> = Vec::new();
    let (mut c1, mut r1, mut u1, mut t1, mut s1) =
        (String::new(), String::new(), None, ToolAccumulator::default(), Vec::new());
    feed_stream_chunk(ProviderType::OpenAiCompatible, bytes, &mut buf, &mut c1, &mut r1, &mut u1, &mut t1, &mut s1);
    assert_eq!(c1, "你好 world");
    assert!(buf.is_empty());
    // one byte at a time, cutting through a multi-byte character
    let mut buf2: Vec<u8> = Vec::new();
    let (mut c2, mut r2, mut u2, mut t2, mut s2) =
        (String::new(), String::new(), None, ToolAccumulator::default(), Vec::new());
    for b in bytes {
        feed_stream_chunk(
            ProviderType::OpenAiCompatible,
            std::slice::from_ref(b),
            &mut buf2,
            &mut c2,
            &mut r2,
            &mut u2,
            &mut t2,
            &mut s2,
        );
    }
    assert_eq!(c2, c1);
    assert_eq!(s2.len(), 2);
}

#[test]
fn partial_line_waits_for_the_rest() {
    let mut buf: Vec<u8> = Vec::new();
    let (mut c, mut r, mut u, mut t, mut s) =
        (String::new(), String::new(), None, ToolAccumulator::default(), Vec::new());
    feed_stream_chunk(
        ProviderType::Anthropic,
        b"data: {\"type\":\"content_block_delta\",\"delta\":{\"type\":\"text_delta\",\"text\":\"Hi\"}}",
        &mut buf, &mut c, &mut r, &mut u, &mut t, &mut s,
    );
    assert_eq!(c, "");
    assert!(!buf.is_empty());
    feed_stream_chunk(ProviderType::Anthropic, b"\r\n", &mut buf, &mut c, &mut r, &mut u, &mut t, &mut s);
    assert_eq!(c, "Hi");
    assert!(buf.is_empty());
}

#[test]
fn full_answers_are_read_by_api_family() {
    let chat = parse_json(
        r#"{"choices":[{"message":{"content":"ok","reasoning_content":"hm","tool_calls":[{"id":"c1","function":{"name":"read_file","arguments":"{}"}}]}}],"usage":{"prompt_tokens":1,"completion_tokens":2,"total_tokens":3}}"#,
    )
    .unwrap();
    let a = read_full_answer(ProviderType::OpenAiCompatible, &chat);
    assert_eq!(a.content, "ok");
    assert_eq!(a.reasoning.as_deref(), Some("hm"));
    assert_eq!(a.usage.map(|u| u.total_tokens), Some(3));
    assert_eq!(a.calls.len(), 1);
    assert_eq!(a.calls[0].name, "read_file");

    let anthropic = parse_json(
        r#"{"content":[{"type":"thinking","thinking":"t"},{"type":"text","text":"a"},{"type":"text","text":"b"},{"type":"tool_use","id":"u1","name":"list_dir","input":{"path":"src"}}]}"#,
    )
    .unwrap();
    let a = read_full_answer(ProviderType::Anthropic, &anthropic);
    assert_eq!(a.content, "ab");
    assert_eq!(a.reasoning.as_deref(), Some("t"));
    assert_eq!(a.calls[0].arguments, r#"{"path":"src"}"#);
}

#[test]
fn calls_missing_an_id_or_a_name_are_dropped() {
    let mut tools = ToolAccumulator::default();
    let d0 = parse_json(r#"{"tool_calls":[{"index":0,"function":{"name":"no_id","arguments":"{}"}}]}"#).unwrap();
    let d1 = parse_json(r#"{"tool_calls":[{"index":1,"id":"c1","function":{"arguments":"{}"}}]}"#).unwrap();
    let d2 = parse_json(r#"{"tool_calls":[{"index":2,"id":"c2","function":{"name":"read_file","arguments":"{}"}}]}"#).unwrap();
    tools.apply_openai_delta(&d0);
    tools.apply_openai_delta(&d1);
    tools.apply_openai_delta(&d2);
    let calls = tools.finish();
    assert_eq!(calls.len(), 1);
    assert_eq!(calls[0].id, "c2");
    assert_eq!(calls[0].name, "read_file");
}

use koid::chat::{emits_output, final_chunk, DeltaBuffer};
use koid::models::{ChatResponse, TokenUsage};

#[test]
fn first_piece_goes_out_at_once_then_batches() {
    let mut buf = DeltaBuffer::new();
    let c = buf.push("req", "Hel", None, None).unwrap();
    assert_eq!(c.delta, "Hel");
    assert_eq!(c.reasoning_delta, None);
    assert!(!c.done);
    assert!(buf.push("req", "lo", Some("hm"), Some(3)).is_none());
    assert!(buf.push("req", "!", None, Some(10)).is_none());
    let c = buf.push("req", "", Some("."), Some(16)).unwrap();
    assert_eq!(c.request_id, "req");
    assert_eq!(c.delta, "lo!");
    assert_eq!(c.reasoning_delta.as_deref(), Some("hm."));
    assert!(buf.drain("req").is_none());
}

#[test]
fn eight_kilobytes_force_a_chunk() {
    let mut buf = DeltaBuffer::new();
    let big = "x".repeat(8191);
    assert!(buf.push("r", &big, None, Some(0)).is_none());
    let c = buf.push("r", "y", None, Some(0)).unwrap();
    assert_eq!(c.delta.len(), 8192);
    // multi-byte text counts in bytes
    let mut buf = DeltaBuffer::new();
    assert!(buf.push("r", &"字".repeat(2729), None, Some(0)).is_none());
    assert!(buf.push("r", "字", None, Some(0)).is_none());
    assert!(buf.push("r", "字", None, Some(0)).is_some());
}

#[test]
fn drain_hands_out_the_rest() {
    let mut buf = DeltaBuffer::new();
    let _ = buf.push("r", "a", None, None);
    assert!(buf.push("r", "b", None, Some(1)).is_none());
    let c = buf.drain("r").unwrap();
    assert_eq!(c.delta, "b");
    assert!(buf.drain("r").is_none());
}

#[test]
fn output_is_answer_text_or_reasoning() {
    assert!(emits_output("a", None));
    assert!(emits_output("", Some("")));
    assert!(!emits_output("", None));
}

#[test]
fn final_chunk_carries_result_or_split_error() {
    let resp = ChatResponse {
        content: "hi".to_string(),
        reasoning: None,
        usage: Some(TokenUsage { prompt_tokens: 1, completion_tokens: 1, total_tokens: 2 }),
        latency_ms: 5,
        provider_used: "p".to_string(),
        tool_calls: None,
        tool_results: None,
    };
    let ok = final_chunk("r".to_string(), Ok(resp));
    assert!(ok.done);
    assert_eq!(ok.result.unwrap().content, "hi");
    assert_eq!(ok.error, None);
    let err = final_chunk("r".to_string(), Err("TIMEOUT:连接超时".to_string()));
    assert!(err.done);
    assert!(err.result.is_none());
    assert_eq!(err.error.as_deref(), Some("TIMEOUT"));
    assert_eq!(err.error_message.as_deref(), Some("连接超时"));
    let err = final_chunk("r".to_string(), Err("plain".to_string()));
    assert_eq!(err.error.as_deref(), Some("UNKNOWN"));
    assert_eq!(err.error_message.as_deref(), Some("plain"));
}

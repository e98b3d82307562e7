use koid::dsml::{extract_tool_calls, looks_like_dsml};
use koid::json::{as_str, get, parse_json};

const SAMPLE: &str = r#"好的，先读取文件。
<｜｜DSML｜｜tool_calls><｜｜DSML｜｜invoke name="read_file">
<｜｜DSML｜｜parameter name="path" string="true">src/components/ui/button.jsx</｜｜DSML｜｜parameter>
</｜｜DSML｜｜invoke>
<｜｜DSML｜｜invoke name="read_file">
<｜｜DSML｜｜parameter name="path" string="true">vite.config.js</｜｜DSML｜｜parameter>
</｜｜DSML｜｜invoke>
</｜｜DSML｜｜tool_calls>"#;

#[test]
fn extracts_leaked_tool_calls_and_cleans_content() {
    assert!(looks_like_dsml(SAMPLE));
    let (cleaned, calls) = extract_tool_calls(SAMPLE);
    assert_eq!(calls.len(), 2);
    assert_eq!(calls[0].0, "read_file");
    let args0 = parse_json(&calls[0].1).unwrap();
    assert_eq!(as_str(get(Some(&args0), "path")), Some("src/components/ui/button.jsx"));
    let args1 = parse_json(&calls[1].1).unwrap();
    assert_eq!(as_str(get(Some(&args1), "path")), Some("vite.config.js"));
    assert!(!cleaned.contains("DSML"));
    assert!(cleaned.contains("好的，先读取文件。"));
}

#[test]
fn plain_text_is_untouched() {
    let text = "正常回答，含 <div> 与 | 竖线。";
    let (cleaned, calls) = extract_tool_calls(text);
    assert!(calls.is_empty());
    assert_eq!(cleaned, text);
}

#[test]
fn single_bar_variant_matches() {
    let text = "<｜DSML｜tool_calls><｜DSML｜invoke name=\"list_dir\"><｜DSML｜parameter name=\"path\" string=\"true\"></｜DSML｜parameter></｜DSML｜invoke></｜DSML｜tool_calls>";
    let (_, calls) = extract_tool_calls(text);
    assert_eq!(calls.len(), 1);
    assert_eq!(calls[0].0, "list_dir");
}

#[test]
fn dsml_detection_is_case_insensitive() {
    assert!(!looks_like_dsml("plain <tool_calls> text"));
    assert!(looks_like_dsml("x ｜DSML｜ y"));
    assert!(looks_like_dsml("the dsml word"));
}

#[test]
fn leaked_calls_become_real_calls_with_fresh_ids() {
    let mut resp = koid::models::ChatResponse {
        content: SAMPLE.to_string(),
        reasoning: None,
        tool_calls: None,
        tool_results: None,
        usage: None,
        latency_ms: 7,
        provider_used: "p".to_string(),
    };
    assert_eq!(koid::agent::rescue_leaked_calls(&mut resp), Ok(()));
    let calls = resp.tool_calls.as_ref().unwrap();
    assert_eq!(calls.len(), 2);
    assert_eq!(calls[0].name, "read_file");
    assert_eq!(calls[0].id.len(), 36);
    assert_ne!(calls[0].id, calls[1].id);
    assert!(!resp.content.contains("DSML"));
    assert_eq!(resp.latency_ms, 7);
}

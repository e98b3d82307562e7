use koid::llm::{
    anthropic_max_tokens, anthropic_thinking_budget, anthropic_url, classify_status, err, is_openai_official,
    is_reasoning_model, non_empty, openai_chat_url, openai_responses_url, openai_shape, reasoning_effort,
    require_api_key, status_error_code, truncate, LlmContext,
};
use koid::models::{GlobalProxy, Provider, ProviderType, ProxyType};

#[test]
fn openai_official_detection_only_matches_api_openai_com_host() {
    assert!(is_openai_official("https://api.openai.com/v1"));
    assert!(is_openai_official("https://api.openai.com"));
    assert!(is_openai_official("https://api.openai.com:443/v1"));
    assert!(is_openai_official("api.openai.com/v1"));
    assert!(!is_openai_official("https://api.deepseek.com/v1"));
    assert!(!is_openai_official("http://localhost:11434/v1"));
    assert!(!is_openai_official("https://openrouter.ai/api/v1"));
    assert!(!is_openai_official("https://xxx.openai.azure.com"));
    assert!(!is_openai_official("https://not-api.openai.com/v1"));
    assert!(!is_openai_official("https://api.openai.com.evil.example/v1"));
}

#[test]
fn reasoning_model_detection_strips_prefix_and_matches_whole_words() {
    assert!(is_reasoning_model("o1"));
    assert!(is_reasoning_model("openai/o1-mini"));
    assert!(is_reasoning_model("o3-mini"));
    assert!(is_reasoning_model("o4-mini"));
    assert!(is_reasoning_model("gpt-5"));
    assert!(is_reasoning_model("deepseek-ai/DeepSeek-R1-0528:latest"));
    assert!(is_reasoning_model("deepseek-reasoner"));
    assert!(is_reasoning_model("qwq-32b"));
    assert!(is_reasoning_model("phi-4-reasoning"));
    assert!(!is_reasoning_model("gpt-4o"));
    assert!(!is_reasoning_model("gpt-4.1-mini"));
    assert!(!is_reasoning_model("deepseek-chat"));
    assert!(!is_reasoning_model("deepseek-v3.2-exp"));
    assert!(!is_reasoning_model("qwen3-coder-plus"));
    assert!(!is_reasoning_model("llama3.1:8b"));
    assert!(!is_reasoning_model("command-r-plus"));
}

#[test]
fn endpoint_urls_add_v1_once() {
    assert_eq!(openai_chat_url("https://api.openai.com/v1/"), "https://api.openai.com/v1/chat/completions");
    assert_eq!(openai_chat_url("http://localhost:11434"), "http://localhost:11434/v1/chat/completions");
    assert_eq!(openai_responses_url("https://x.example/v1"), "https://x.example/v1/responses");
    assert_eq!(anthropic_url("https://api.anthropic.com"), "https://api.anthropic.com/v1/messages");
}

#[test]
fn status_codes_map_to_error_codes() {
    assert_eq!(status_error_code(401), "UNAUTHORIZED");
    assert_eq!(status_error_code(403), "UNAUTHORIZED");
    assert_eq!(status_error_code(429), "RATE_LIMITED");
    assert_eq!(status_error_code(500), "SERVER");
    assert_eq!(status_error_code(599), "SERVER");
    assert_eq!(status_error_code(400), "BAD_REQUEST");
    assert_eq!(err("EMPTY", "x"), "EMPTY:x");
    assert_eq!(truncate("abcdef", 3), "abc");
    assert_eq!(truncate("你好", 5), "你好");
    assert_eq!(non_empty(String::new()), None);
    assert_eq!(non_empty("a".to_string()), Some("a".to_string()));
}

#[test]
fn effort_and_thinking_budget_follow_level() {
    assert_eq!(reasoning_effort(Some("low")), Some("low"));
    assert_eq!(reasoning_effort(Some("high")), Some("high"));
    assert_eq!(reasoning_effort(Some("default")), None);
    assert_eq!(reasoning_effort(None), None);
    assert_eq!(reasoning_effort(Some("max")), Some("xhigh"));
    assert_eq!(anthropic_thinking_budget(Some("default")), None);
    assert_eq!(anthropic_thinking_budget(Some("low")), Some(4096));
    assert_eq!(anthropic_thinking_budget(Some("high")), Some(20480));
    assert_eq!(anthropic_thinking_budget(Some("max")), Some(32768));
    assert_eq!(anthropic_max_tokens(Some(100), Some(4096)), 5120);
    assert_eq!(anthropic_max_tokens(Some(9000), Some(4096)), 9000);
    assert_eq!(anthropic_max_tokens(None, Some(4096)), 8192);
    assert_eq!(anthropic_max_tokens(None, None), 4096);
}

#[test]
fn openai_shape_of_official_reasoning_models() {
    let s = openai_shape("https://api.openai.com/v1", "o3-mini");
    assert_eq!(s.system_role(), "developer");
    assert_eq!(s.max_tokens_key(), "max_completion_tokens");
    assert!(!s.sends_sampling());
    let c = openai_shape("https://api.deepseek.com/v1", "o3-mini");
    assert_eq!(c.system_role(), "system");
    assert_eq!(c.max_tokens_key(), "max_tokens");
    assert!(c.sends_sampling());
}

#[test]
fn missing_key_refused_except_for_ollama() {
    assert!(require_api_key(ProviderType::Ollama, false, "local").is_ok());
    assert!(require_api_key(ProviderType::OpenAiCompatible, true, "x").is_ok());
    assert_eq!(
        require_api_key(ProviderType::Anthropic, false, "Sonnet"),
        Err("UNAUTHORIZED:供应商「Sonnet」未配置 API Key".to_string())
    );
}

#[test]
fn status_errors_carry_code_and_body() {
    assert_eq!(classify_status(429, "429 Too Many Requests", "slow down"), "RATE_LIMITED:HTTP 429：请求过于频繁 slow down");
    assert_eq!(classify_status(401, "401 Unauthorized", "x"), "UNAUTHORIZED:HTTP 401 Unauthorized：API Key 无效或权限不足");
    assert_eq!(classify_status(502, "502 Bad Gateway", "down"), "SERVER:HTTP 502 Bad Gateway：服务器错误 down");
    assert_eq!(classify_status(404, "404 Not Found", "nope"), "BAD_REQUEST:HTTP 404 Not Found: nope");
}

fn provider(timeout: i64, proxy: ProxyType, url: Option<&str>) -> Provider {
    Provider {
        id: "p".to_string(),
        name: "p".to_string(),
        provider_type: ProviderType::OpenAiCompatible,
        base_url: "http://x".to_string(),
        api_key_masked: None,
        proxy_type: proxy,
        proxy_url: url.map(|s| s.to_string()),
        timeout,
        retries: 2,
        order_index: 0,
        enabled: true,
    }
}

#[test]
fn context_timeout_and_proxy() {
    let ctx = LlmContext::new(provider(0, ProxyType::Direct, None), None, None);
    assert_eq!(ctx.timeout_secs(), 1);
    assert!(!ctx.is_aborted());
    assert_eq!(ctx.proxy(), ("direct", None));
    let global = GlobalProxy { proxy_type: ProxyType::Socks5, proxy_url: Some("socks5://g:1080".to_string()) };
    let ctx = LlmContext::new(provider(30, ProxyType::Direct, None), Some("k".to_string()), Some(global));
    assert_eq!(ctx.timeout_secs(), 30);
    assert_eq!(ctx.proxy(), ("socks5", Some("socks5://g:1080".to_string())));
    let own = LlmContext::new(provider(30, ProxyType::Http, Some("http://own:8080")), None, None);
    assert_eq!(own.proxy(), ("http", Some("http://own:8080".to_string())));
    own.abort.store(true, std::sync::atomic::Ordering::Relaxed);
    assert!(own.is_aborted());
}

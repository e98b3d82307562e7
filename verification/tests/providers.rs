use koid::keyring::mask_key;
use koid::models::{ModelInput, Provider, ProviderInput, ProviderType, ProxyType};
use koid::providers::{
    key_to_store, model_display_name, parse_caps, provider_from_row, provider_insert_values, provider_update_values,
    proxy_from_db, proxy_to_db, type_from_db, type_to_db, ProviderRow,
};
use koid::proxy::{proxy_type_str, resolve_proxy};
use koid::models::GlobalProxy;

#[test]
fn type_names_round_trip() {
    for t in [
        ProviderType::OpenAiCompatible,
        ProviderType::Anthropic,
        ProviderType::OpenAiResponse,
        ProviderType::Ollama,
        ProviderType::Custom,
    ] {
        assert_eq!(type_from_db(type_to_db(t)), Ok(t));
    }
    for p in [ProxyType::Direct, ProxyType::Http, ProxyType::Socks5] {
        assert_eq!(proxy_from_db(proxy_to_db(p)), Ok(p));
        assert_eq!(proxy_to_db(p), proxy_type_str(p));
    }
    assert_eq!(type_to_db(ProviderType::OpenAiCompatible), "openai-compatible");
    assert_eq!(type_from_db("gemini"), Err("未知的供应商类型: gemini".to_string()));
    assert_eq!(proxy_from_db("ftp"), Err("未知的代理类型: ftp".to_string()));
}

#[test]
fn keys_are_masked_for_display() {
    assert_eq!(mask_key("short"), "********");
    assert_eq!(mask_key("12345678"), "********");
    assert_eq!(mask_key("sk-abcdefghijwxyz"), "sk-a...wxyz");
}

fn row(kind: &str, proxy: &str) -> ProviderRow {
    ProviderRow {
        id: "p1".to_string(),
        name: "P".to_string(),
        kind: kind.to_string(),
        base_url: "https://x".to_string(),
        proxy_type: proxy.to_string(),
        proxy_url: None,
        timeout: 60,
        retries: 2,
        order_index: 3,
        enabled: true,
    }
}

#[test]
fn rows_read_with_masked_key() {
    let p = provider_from_row(row("anthropic", "http"), Some("sk-abcdefghijwxyz".to_string())).unwrap();
    assert_eq!(p.provider_type, ProviderType::Anthropic);
    assert_eq!(p.proxy_type, ProxyType::Http);
    assert_eq!(p.api_key_masked.as_deref(), Some("sk-a...wxyz"));
    assert_eq!(p.order_index, 3);
    assert_eq!(provider_from_row(row("anthropic", "direct"), None).unwrap().api_key_masked, None);
    assert_eq!(provider_from_row(row("x", "bad"), None).unwrap_err(), "未知的供应商类型: x");
    assert_eq!(provider_from_row(row("ollama", "bad"), None).unwrap_err(), "未知的代理类型: bad");
}

fn input() -> ProviderInput {
    ProviderInput {
        id: None,
        name: "N".to_string(),
        provider_type: ProviderType::Ollama,
        base_url: "http://localhost:11434".to_string(),
        api_key: None,
        proxy_type: None,
        proxy_url: None,
        timeout: None,
        retries: None,
        order_index: None,
        enabled: None,
    }
}

#[test]
fn saved_values_default_or_keep_current() {
    let v = provider_insert_values(&input());
    assert_eq!(v.kind, "ollama");
    assert_eq!(v.proxy_type, "direct");
    assert_eq!((v.timeout, v.retries, v.order_index, v.enabled), (60, 2, 0, true));
    let cur = Provider {
        id: "p".to_string(),
        name: "old".to_string(),
        provider_type: ProviderType::Anthropic,
        base_url: "x".to_string(),
        api_key_masked: None,
        proxy_type: ProxyType::Socks5,
        proxy_url: Some("socks5://a".to_string()),
        timeout: 5,
        retries: 9,
        order_index: 7,
        enabled: false,
    };
    let mut i = input();
    i.timeout = Some(30);
    let v = provider_update_values(&i, &cur);
    assert_eq!(v.name, "N");
    assert_eq!(v.proxy_type, "socks5");
    assert_eq!(v.proxy_url, None);
    assert_eq!((v.timeout, v.retries, v.order_index, v.enabled), (30, 9, 7, false));
}

#[test]
fn blank_keys_are_not_stored() {
    assert_eq!(key_to_store(&Some("  sk-1 ".to_string())), Some("sk-1".to_string()));
    assert_eq!(key_to_store(&Some("   ".to_string())), None);
    assert_eq!(key_to_store(&None), None);
}

#[test]
fn model_names_and_capabilities() {
    let mut m = ModelInput {
        id: None,
        provider_id: "p".to_string(),
        model_id: "gpt-4o".to_string(),
        display_name: Some("  ".to_string()),
        context_window: None,
        capabilities: None,
        enabled: None,
    };
    assert_eq!(model_display_name(&m), "gpt-4o");
    m.display_name = Some("GPT".to_string());
    assert_eq!(model_display_name(&m), "GPT");
    assert_eq!(parse_caps(Some(r#"["tools","vision"]"#)), vec!["tools".to_string(), "vision".to_string()]);
    assert!(parse_caps(Some(r#"["tools",1]"#)).is_empty());
    assert!(parse_caps(Some("nope")).is_empty());
    assert!(parse_caps(None).is_empty());
}

fn provider(proxy: ProxyType, url: Option<&str>) -> Provider {
    Provider {
        id: "p".to_string(),
        name: "p".to_string(),
        provider_type: ProviderType::OpenAiCompatible,
        base_url: "x".to_string(),
        api_key_masked: None,
        proxy_type: proxy,
        proxy_url: url.map(|s| s.to_string()),
        timeout: 60,
        retries: 2,
        order_index: 0,
        enabled: true,
    }
}

#[test]
fn provider_proxy_wins_over_global() {
    let global = GlobalProxy { proxy_type: ProxyType::Http, proxy_url: Some("http://g".to_string()) };
    assert_eq!(
        resolve_proxy(&provider(ProxyType::Socks5, Some("socks5://own")), Some(&global)),
        ("socks5", Some("socks5://own".to_string()))
    );
    assert_eq!(
        resolve_proxy(&provider(ProxyType::Http, Some("  ")), Some(&global)),
        ("http", Some("http://g".to_string()))
    );
    assert_eq!(resolve_proxy(&provider(ProxyType::Direct, None), None), ("direct", None));
    let direct_global = GlobalProxy { proxy_type: ProxyType::Direct, proxy_url: Some("http://g".to_string()) };
    assert_eq!(resolve_proxy(&provider(ProxyType::Direct, None), Some(&direct_global)), ("direct", None));
}

#[test]
fn ids_are_uuids() {
    let a = koid::utils::new_id().unwrap();
    let b = koid::utils::new_id().unwrap();
    assert_eq!(a.len(), 36);
    assert_ne!(a, b);
    for id in [&a, &b] {
        let cs: Vec<char> = id.chars().collect();
        for (i, c) in cs.iter().enumerate() {
            if i == 8 || i == 13 || i == 18 || i == 23 {
                assert_eq!(*c, '-');
            } else {
                assert!(c.is_ascii_hexdigit() && !c.is_ascii_uppercase());
            }
        }
        assert_eq!(cs[14], '4');
        assert!(matches!(cs[19], '8' | '9' | 'a' | 'b'));
    }
    assert!(koid::utils::now_ms() > 1_600_000_000_000);
}

#[test]
fn proxy_test_target_must_be_http() {
    use_target();
}

fn use_target() {
    assert_eq!(koid::proxy::proxy_test_target(" https://x.example "), Ok("https://x.example".to_string()));
    assert_eq!(
        koid::proxy::proxy_test_target("ftp://x"),
        Err("目标 URL 需以 http:// 或 https:// 开头".to_string())
    );
    assert_eq!(koid::proxy::proxy_test_target("  "), Err("目标 URL 需以 http:// 或 https:// 开头".to_string()));
}

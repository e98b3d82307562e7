use koid::failover::{
    is_retryable, next_failover_step, pick_candidates, pick_from_chain, retain_reachable, split_error,
    FailoverStep,
};
use koid::models::{FailoverConfig, FailoverStrategy, Model, Provider, ProviderType, ProxyType};

fn provider(id: &str, enabled: bool, order: i64) -> Provider {
    Provider {
        id: id.to_string(),
        name: id.to_string(),
        provider_type: ProviderType::OpenAiCompatible,
        base_url: "http://x".to_string(),
        api_key_masked: None,
        proxy_type: ProxyType::Direct,
        proxy_url: None,
        timeout: 60,
        retries: 2,
        order_index: order,
        enabled,
    }
}

fn model(id: &str, provider_id: &str) -> Model {
    Model {
        id: id.to_string(),
        provider_id: provider_id.to_string(),
        model_id: id.to_string(),
        display_name: id.to_string(),
        context_window: None,
        capabilities: vec![],
        enabled: true,
    }
}

#[test]
fn retryable_follows_triggers_and_exclusions() {
    let cfg = FailoverConfig::default();
    let mut cfg = cfg;
    cfg.enabled = true;
    assert!(is_retryable("TIMEOUT:请求超时", &cfg));
    assert!(is_retryable("NETWORK:无法连接", &cfg));
    assert!(is_retryable("SERVER:HTTP 502：网关错误", &cfg));
    assert!(is_retryable("EMPTY:模型返回空响应", &cfg));
    assert!(!is_retryable("UNAUTHORIZED:HTTP 401：Key 无效", &cfg));
    assert!(!is_retryable("RATE_LIMITED:HTTP 429：频繁", &cfg));
    assert!(!is_retryable("ABORTED:用户停止了生成", &cfg));
    assert!(!is_retryable("BAD_REQUEST:HTTP 400: bad", &cfg));
    cfg.enabled = false;
    assert!(!is_retryable("TIMEOUT:x", &cfg));
}

#[test]
fn candidates_skip_failed_disabled_and_modelless() {
    let providers = vec![
        provider("a", true, 0),
        provider("b", true, 1),
        provider("c", false, 2),
        provider("d", true, 3),
    ];
    let models = vec![model("m-a", "a"), model("m-b", "b")];
    let out = pick_candidates(&providers, &models, "a", FailoverStrategy::Sequential);
    let ids: Vec<&str> = out.iter().map(|(p, _)| p.id.as_str()).collect();
    assert_eq!(ids, vec!["b"]);
}

#[test]
fn chain_keeps_user_order_and_supports_same_provider() {
    let providers = vec![provider("p1", true, 0), provider("p2", true, 1)];
    let models = vec![model("m-1", "p1"), model("m-2", "p1"), model("m-3", "p2")];
    let chain = vec!["m-3".to_string(), "m-2".to_string(), "m-1".to_string(), "m-9".to_string()];
    let out = pick_from_chain(&chain, &providers, &models);
    let ids: Vec<&str> = out.iter().map(|(_, m)| m.id.as_str()).collect();
    assert_eq!(ids, vec!["m-3", "m-2", "m-1"]);
}

#[test]
fn chain_skips_disabled_models_and_providers() {
    let providers = vec![provider("p1", true, 0), provider("p2", false, 1)];
    let mut disabled = model("m-off", "p1");
    disabled.enabled = false;
    let models = vec![disabled, model("m-p2", "p2")];
    let out = pick_from_chain(&["m-off".to_string(), "m-p2".to_string()], &providers, &models);
    assert!(out.is_empty());
}

#[test]
fn chain_drops_repeated_entries() {
    let providers = vec![provider("p1", true, 0)];
    let models = vec![model("m-1", "p1")];
    let out = pick_from_chain(&["m-1".to_string(), "m-1".to_string()], &providers, &models);
    assert_eq!(out.len(), 1);
}

#[test]
fn round_robin_rotates_after_the_failed_provider() {
    let providers = vec![provider("a", true, 0), provider("b", true, 1), provider("c", true, 2)];
    let models = vec![model("m-a", "a"), model("m-b", "b"), model("m-c", "c")];
    let out = pick_candidates(&providers, &models, "b", FailoverStrategy::RoundRobin);
    let ids: Vec<&str> = out.iter().map(|(p, _)| p.id.as_str()).collect();
    // candidates are a and c; rotated by b's position (1)
    assert_eq!(ids, vec!["c", "a"]);
}

#[test]
fn random_strategy_only_reorders() {
    let providers = vec![provider("a", true, 0), provider("b", true, 1), provider("c", true, 2)];
    let models = vec![model("m-a", "a"), model("m-b", "b"), model("m-c", "c")];
    let out = pick_candidates(&providers, &models, "x", FailoverStrategy::Random);
    let mut ids: Vec<&str> = out.iter().map(|(p, _)| p.id.as_str()).collect();
    ids.sort();
    assert_eq!(ids, vec!["a", "b", "c"]);
}

#[test]
fn split_error_reads_code_and_message() {
    assert_eq!(split_error("TIMEOUT:请求超时"), ("TIMEOUT", "请求超时"));
    assert_eq!(split_error("A:b:c"), ("A", "b:c"));
    assert_eq!(split_error("no code"), ("UNKNOWN", "no code"));
}

#[test]
fn failover_step_stops_on_abort_output_or_exhaustion() {
    let mut cfg = FailoverConfig::default();
    cfg.enabled = true;
    assert_eq!(next_failover_step("TIMEOUT:x", false, false, &cfg, 2, 0), FailoverStep::SwitchTo(0));
    assert_eq!(next_failover_step("TIMEOUT:x", false, false, &cfg, 2, 1), FailoverStep::SwitchTo(1));
    assert_eq!(next_failover_step("TIMEOUT:x", false, false, &cfg, 2, 2), FailoverStep::Stop);
    assert_eq!(next_failover_step("TIMEOUT:x", true, false, &cfg, 2, 0), FailoverStep::Stop);
    assert_eq!(next_failover_step("TIMEOUT:x", false, true, &cfg, 2, 0), FailoverStep::Stop);
    assert_eq!(next_failover_step("ABORTED:x", false, false, &cfg, 2, 0), FailoverStep::Stop);
}

#[test]
fn unreachable_candidates_are_dropped() {
    let cands = vec![
        (provider("a", true, 0), model("m-a", "a")),
        (provider("b", true, 1), model("m-b", "b")),
    ];
    let out = retain_reachable(cands, &[false, true]);
    assert_eq!(out.len(), 1);
    assert_eq!(out[0].0.id, "b");
}
